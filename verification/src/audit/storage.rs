//! Audit storage: the capability events are persisted through, the exact
//! semantics of querying, and the in-memory backend.
//!
//! Query semantics: keep the events the filter matches, order them by
//! timestamp descending (equal timestamps keep their relative order), then
//! window by offset and limit. Retention deletes exactly the events older
//! than a cutoff.

use vstd::prelude::*;
use crate::audit::models::{AuditEvent, AuditEventSpec, AuditFilter, spec_result_tag};
use crate::strutil::{str_eq, copy_str};

verus! {

/// Why a storage operation failed.
#[derive(Debug, Clone)]
pub enum StorageError {
    DatabaseError(String),
    IoError(String),
    SerializationError(String),
    EventNotFound(String),
    ConfigurationError(String),
    ConnectionError(String),
}

impl StorageError {
    /// A human-readable form of the error.
    pub fn message(&self) -> String {
        match self {
            StorageError::DatabaseError(m) => {
                let mut s = copy_str("database error: ");
                s.append(m.as_str());
                s
            },
            StorageError::IoError(m) => {
                let mut s = copy_str("file I/O error: ");
                s.append(m.as_str());
                s
            },
            StorageError::SerializationError(m) => {
                let mut s = copy_str("serialization error: ");
                s.append(m.as_str());
                s
            },
            StorageError::EventNotFound(m) => {
                let mut s = copy_str("audit event not found: ");
                s.append(m.as_str());
                s
            },
            StorageError::ConfigurationError(m) => {
                let mut s = copy_str("configuration error: ");
                s.append(m.as_str());
                s
            },
            StorageError::ConnectionError(m) => {
                let mut s = copy_str("connection error: ");
                s.append(m.as_str());
                s
            },
        }
    }
}

/// The models of a sequence of events.
pub open spec fn events_view(s: Seq<AuditEvent>) -> Seq<AuditEventSpec> {
    s.map_values(|e: AuditEvent| e@)
}

/// Whether an event passes a filter: every set field must agree.
pub open spec fn spec_matches(e: AuditEventSpec, f: AuditFilter) -> bool {
    &&& (match f.user_id {
        Option::Some(u) => e.user_id == Option::Some(u@),
        Option::None => true,
    })
    &&& (match f.event_type {
        Option::Some(t) => e.event_type == t,
        Option::None => true,
    })
    &&& (match f.resource_type {
        Option::Some(t) => e.resource_type == t,
        Option::None => true,
    })
    &&& (match f.resource_id {
        Option::Some(rid) => e.resource_id == rid@,
        Option::None => true,
    })
    &&& (match f.start_time_ms {
        Option::Some(s) => e.timestamp_ms >= s,
        Option::None => true,
    })
    &&& (match f.end_time_ms {
        Option::Some(t) => e.timestamp_ms <= t,
        Option::None => true,
    })
    &&& (match f.result {
        Option::Some(r) => spec_result_tag(e.result) == spec_result_tag(r@),
        Option::None => true,
    })
}

/// The events a filter keeps, in stored order.
pub open spec fn spec_filter_events(s: Seq<AuditEventSpec>, f: AuditFilter) -> Seq<AuditEventSpec>
    decreases s.len(),
{
    if s.len() == 0 {
        Seq::empty()
    } else {
        let rest = spec_filter_events(s.drop_last(), f);
        if spec_matches(s.last(), f) {
            rest.push(s.last())
        } else {
            rest
        }
    }
}

/// `e` inserted into a descending run, before the first event it is not
/// older than.
pub open spec fn spec_insert_desc(e: AuditEventSpec, s: Seq<AuditEventSpec>) -> Seq<AuditEventSpec>
    decreases s.len(),
{
    if s.len() == 0 {
        seq![e]
    } else if e.timestamp_ms >= s[0].timestamp_ms {
        seq![e] + s
    } else {
        seq![s[0]] + spec_insert_desc(e, s.drop_first())
    }
}

/// The events ordered by timestamp, newest first; events of equal
/// timestamp keep their stored order.
pub open spec fn spec_sort_desc(s: Seq<AuditEventSpec>) -> Seq<AuditEventSpec>
    decreases s.len(),
{
    if s.len() == 0 {
        Seq::empty()
    } else {
        spec_insert_desc(s.last(), spec_sort_desc(s.drop_last()))
    }
}

/// The window `offset` and `limit` cut out of a sequence.
pub open spec fn spec_window(s: Seq<AuditEventSpec>, offset: int, limit: int) -> Seq<AuditEventSpec> {
    if offset >= s.len() {
        Seq::empty()
    } else {
        let t = s.skip(offset);
        if limit >= t.len() {
            t
        } else {
            t.take(limit)
        }
    }
}

/// What a query returns: the matching events, newest first, windowed.
pub open spec fn spec_query(s: Seq<AuditEventSpec>, f: AuditFilter) -> Seq<AuditEventSpec> {
    spec_window(spec_sort_desc(spec_filter_events(s, f)), f.offset as int, f.limit as int)
}

/// The events at or after a cutoff, in stored order: what retention keeps.
pub open spec fn spec_keep_recent(s: Seq<AuditEventSpec>, cutoff_ms: int) -> Seq<AuditEventSpec>
    decreases s.len(),
{
    if s.len() == 0 {
        Seq::empty()
    } else {
        let rest = spec_keep_recent(s.drop_last(), cutoff_ms);
        if s.last().timestamp_ms >= cutoff_ms {
            rest.push(s.last())
        } else {
            rest
        }
    }
}

/// Whether an event passes a filter.
pub fn event_matches(e: &AuditEvent, f: &AuditFilter) -> (r: bool)
    ensures
        r == spec_matches(e@, *f),
{
    let user_ok = match (&f.user_id, &e.user_id) {
        (Option::Some(u), Option::Some(eu)) => str_eq(u.as_str(), eu.as_str()),
        (Option::Some(_), Option::None) => false,
        (Option::None, _) => true,
    };
    if !user_ok {
        return false;
    }
    let type_ok = match &f.event_type {
        Option::Some(t) => *t == e.event_type,
        Option::None => true,
    };
    if !type_ok {
        return false;
    }
    let rtype_ok = match &f.resource_type {
        Option::Some(t) => *t == e.resource_type,
        Option::None => true,
    };
    if !rtype_ok {
        return false;
    }
    let rid_ok = match &f.resource_id {
        Option::Some(rid) => str_eq(rid.as_str(), e.resource_id.as_str()),
        Option::None => true,
    };
    if !rid_ok {
        return false;
    }
    let start_ok = match f.start_time_ms {
        Option::Some(s) => e.timestamp_ms >= s,
        Option::None => true,
    };
    if !start_ok {
        return false;
    }
    let end_ok = match f.end_time_ms {
        Option::Some(t) => e.timestamp_ms <= t,
        Option::None => true,
    };
    if !end_ok {
        return false;
    }
    match &f.result {
        Option::Some(r) => str_eq(r.as_str(), e.result.as_str()),
        Option::None => true,
    }
}

/// Splicing an insertion point: inserting before position `p` of a
/// descending run lays the sequence out as prefix, element, suffix.
proof fn lemma_insert_desc_at(e: AuditEventSpec, s: Seq<AuditEventSpec>, p: int)
    requires
        0 <= p <= s.len(),
        forall|k: int| 0 <= k < p ==> !(e.timestamp_ms >= #[trigger] s[k].timestamp_ms),
        p < s.len() ==> e.timestamp_ms >= s[p].timestamp_ms,
    ensures
        spec_insert_desc(e, s) == s.take(p) + seq![e] + s.skip(p),
    decreases p,
{
    if p == 0 {
        if s.len() == 0 {
            assert(spec_insert_desc(e, s) =~= s.take(0) + seq![e] + s.skip(0));
        } else {
            assert(spec_insert_desc(e, s) =~= s.take(0) + seq![e] + s.skip(0));
        }
    } else {
        assert(s[0] == s.drop_first()[-1 + 1] || true);
        assert forall|k: int| 0 <= k < p - 1
            implies !(e.timestamp_ms >= #[trigger] s.drop_first()[k].timestamp_ms) by {
            assert(s.drop_first()[k] == s[k + 1]);
        }
        assert(p - 1 < s.drop_first().len() ==> e.timestamp_ms >= s.drop_first()[p - 1].timestamp_ms) by {
            if p - 1 < s.drop_first().len() {
                assert(s.drop_first()[p - 1] == s[p]);
            }
        }
        lemma_insert_desc_at(e, s.drop_first(), p - 1);
        assert(seq![s[0]] + (s.drop_first().take(p - 1) + seq![e] + s.drop_first().skip(p - 1))
            =~= s.take(p) + seq![e] + s.skip(p));
        assert(!(e.timestamp_ms >= s[0].timestamp_ms));
    }
}

/// `e` inserted into a vector before the first event it is not older than.
fn insert_desc(v: Vec<AuditEvent>, e: AuditEvent) -> (r: Vec<AuditEvent>)
    ensures
        events_view(r@) == spec_insert_desc(e@, events_view(v@)),
{
    let ghost sv = events_view(v@);
    let n = v.len();
    let mut p: usize = 0;
    while p < n && !(e.timestamp_ms >= v[p].timestamp_ms)
        invariant
            0 <= p <= n,
            n == v@.len(),
            sv == events_view(v@),
            sv.len() == n,
            forall|k: int| 0 <= k < n ==> #[trigger] sv[k] == v@[k]@,
            forall|k: int| 0 <= k < p ==> !(e@.timestamp_ms >= #[trigger] sv[k].timestamp_ms),
        decreases n - p,
    {
        p = p + 1;
    }
    proof {
        lemma_insert_desc_at(e@, sv, p as int);
    }
    let mut out: Vec<AuditEvent> = Vec::new();
    let mut i: usize = 0;
    while i < p
        invariant
            0 <= i <= p <= n,
            n == v@.len(),
            out@.len() == i,
            forall|k: int| 0 <= k < i ==> #[trigger] out@[k]@ == v@[k]@,
        decreases p - i,
    {
        out.push(v[i].clone());
        i = i + 1;
    }
    out.push(e);
    let mut i: usize = p;
    while i < n
        invariant
            0 <= p <= i <= n,
            n == v@.len(),
            out@.len() == i + 1,
            forall|k: int| 0 <= k < p ==> #[trigger] out@[k]@ == v@[k]@,
            out@[p as int]@ == e@,
            forall|k: int| p < k < out@.len() ==> #[trigger] out@[k]@ == v@[k - 1]@,
        decreases n - i,
    {
        out.push(v[i].clone());
        i = i + 1;
    }
    proof {
        assert(events_view(out@) =~= sv.take(p as int) + seq![e@] + sv.skip(p as int));
    }
    out
}

/// The events a filter keeps, ordered newest first and windowed: the exact
/// query pipeline every backend implements.
pub fn filter_events(events: Vec<AuditEvent>, filter: &AuditFilter) -> (r: Vec<AuditEvent>)
    ensures
        events_view(r@) == spec_query(events_view(events@), *filter),
{
    let ghost all = events_view(events@);
    // keep the matches, in stored order
    let n = events.len();
    let mut kept: Vec<AuditEvent> = Vec::new();
    let mut i: usize = 0;
    while i < n
        invariant
            0 <= i <= n,
            n == events@.len(),
            all == events_view(events@),
            all.len() == n,
            forall|k: int| 0 <= k < n ==> #[trigger] all[k] == events@[k]@,
            events_view(kept@) == spec_filter_events(all.take(i as int), *filter),
        decreases n - i,
    {
        let ghost k0 = events_view(kept@);
        if event_matches(&events[i], filter) {
            kept.push(events[i].clone());
        }
        proof {
            assert(all.take(i as int + 1).drop_last() =~= all.take(i as int));
            assert(all.take(i as int + 1).last() == all[i as int]);
            if spec_matches(all[i as int], *filter) {
                assert(events_view(kept@) =~= k0.push(events@[i as int]@));
            } else {
                assert(events_view(kept@) =~= k0);
            }
        }
        i = i + 1;
    }
    proof {
        assert(all.take(n as int) =~= all);
    }
    // order newest first
    let m = kept.len();
    let ghost keptv = events_view(kept@);
    let mut sorted: Vec<AuditEvent> = Vec::new();
    let mut i: usize = 0;
    while i < m
        invariant
            0 <= i <= m,
            m == kept@.len(),
            keptv == events_view(kept@),
            keptv.len() == m,
            forall|k: int| 0 <= k < m ==> #[trigger] keptv[k] == kept@[k]@,
            events_view(sorted@) == spec_sort_desc(keptv.take(i as int)),
        decreases m - i,
    {
        sorted = insert_desc(sorted, kept[i].clone());
        proof {
            assert(keptv.take(i as int + 1).drop_last() =~= keptv.take(i as int));
            assert(keptv.take(i as int + 1).last() == keptv[i as int]);
        }
        i = i + 1;
    }
    proof {
        assert(keptv.take(m as int) =~= keptv);
    }
    // window by offset and limit
    let ghost sortedv = events_view(sorted@);
    let total = sorted.len();
    let mut out: Vec<AuditEvent> = Vec::new();
    let mut i: usize = filter.offset;
    if i > total {
        i = total;
    }
    let start = i;
    while i < total && out.len() < filter.limit
        invariant
            start <= i <= total,
            total == sorted@.len(),
            sortedv == events_view(sorted@),
            sortedv.len() == total,
            forall|k: int| 0 <= k < total ==> #[trigger] sortedv[k] == sorted@[k]@,
            out@.len() == i - start,
            i - start <= filter.limit,
            forall|k: int| 0 <= k < out@.len() ==> #[trigger] out@[k]@ == sortedv[start + k],
        decreases total - i,
    {
        out.push(sorted[i].clone());
        i = i + 1;
    }
    proof {
        let w = spec_window(sortedv, filter.offset as int, filter.limit as int);
        if filter.offset >= sortedv.len() {
            assert(events_view(out@) =~= w);
        } else {
            let t = sortedv.skip(filter.offset as int);
            if filter.limit >= t.len() {
                assert(events_view(out@) =~= t);
            } else {
                assert(events_view(out@) =~= t.take(filter.limit as int));
            }
        }
    }
    out
}

/// When a file-backed log is rotated aside.
#[derive(Debug, Clone, Copy, PartialEq, Eq, Structural)]
pub enum RotationPolicy {
    /// Rotate when the file's last-modified day (UTC) lies before today.
    Daily,
    /// Rotate when the file holds at least this many bytes.
    SizeBased(u64),
    /// Never rotate.
    Never,
}

/// Whether a policy calls for rotation, given the file's size in bytes
/// and the last-modified and current day numbers.
pub open spec fn spec_rotation_due(
    p: RotationPolicy,
    file_len: u64,
    modified_day: i64,
    today_day: i64,
) -> bool {
    match p {
        RotationPolicy::Never => false,
        RotationPolicy::SizeBased(limit) => file_len >= limit,
        RotationPolicy::Daily => modified_day < today_day,
    }
}

impl RotationPolicy {
    /// Whether this policy calls for rotation now: never, at the size
    /// limit, or when the file's day lies strictly before today.
    pub fn rotation_due(&self, file_len: u64, modified_day: i64, today_day: i64) -> (r: bool)
        ensures
            r == spec_rotation_due(*self, file_len, modified_day, today_day),
    {
        match self {
            RotationPolicy::Never => false,
            RotationPolicy::SizeBased(limit) => file_len >= *limit,
            RotationPolicy::Daily => modified_day < today_day,
        }
    }
}

/// The storage capability behind the audit log. Every backend persists
/// exactly the stream of stored events; queries follow the one pipeline
/// [`spec_query`] names, and retention keeps exactly the events at or
/// after the cutoff.
pub trait AuditStorage: Sized {
    /// The stream of events stored so far, oldest first.
    spec fn view(&self) -> Seq<AuditEventSpec>;

    /// Appends one event to the stream.
    fn store(&mut self, event: &AuditEvent) -> (r: Result<(), StorageError>)
        ensures
            r is Ok ==> final(self).view() == old(self).view().push(event@),
            r is Err ==> final(self).view() == old(self).view(),
    ;

    /// The events a filter keeps, newest first, windowed.
    fn query(&self, filter: AuditFilter) -> (r: Result<Vec<AuditEvent>, StorageError>)
        ensures
            r matches Ok(v) ==> events_view(v@) == spec_query(self.view(), filter),
    ;

    /// The stored event with the given id, if any.
    fn get(&self, id: &str) -> (r: Result<Option<AuditEvent>, StorageError>)
        ensures
            match r {
                Result::Ok(o) => match o {
                    Option::Some(e) => e@.id == id@
                        && exists|k: int| 0 <= k < self.view().len() && #[trigger] self.view()[k] == e@,
                    Option::None => forall|k: int|
                        0 <= k < self.view().len() ==> (#[trigger] self.view()[k]).id != id@,
                },
                Result::Err(_) => true,
            },
    ;

    /// Deletes every event strictly older than the cutoff; returns how
    /// many went.
    fn delete_older_than(&mut self, cutoff_ms: i64) -> (r: Result<u64, StorageError>)
        ensures
            r matches Ok(c) ==> final(self).view() == spec_keep_recent(old(self).view(), cutoff_ms as int)
                && c == old(self).view().len() - final(self).view().len(),
            r is Err ==> final(self).view() == old(self).view(),
    ;

    /// How many events the filter keeps (within its window).
    fn count(&self, filter: AuditFilter) -> (r: Result<u64, StorageError>)
        ensures
            r matches Ok(c) ==> c == spec_query(self.view(), filter).len(),
    ;

    /// Whether the backend is ready.
    fn health_check(&self) -> (r: Result<(), StorageError>);
}

/// The in-memory backend: a growable list of events.
pub struct InMemoryAuditStorage {
    /// The stored events, oldest first.
    pub events: Vec<AuditEvent>,
}

impl InMemoryAuditStorage {
    /// An empty store.
    pub fn new() -> (r: InMemoryAuditStorage)
        ensures
            r.view() == Seq::<AuditEventSpec>::empty(),
    {
        let r = InMemoryAuditStorage { events: Vec::new() };
        proof {
            assert(r.view() =~= Seq::<AuditEventSpec>::empty());
        }
        r
    }
}

impl AuditStorage for InMemoryAuditStorage {
    open spec fn view(&self) -> Seq<AuditEventSpec> {
        events_view(self.events@)
    }

    fn store(&mut self, event: &AuditEvent) -> (r: Result<(), StorageError>) {
        let ghost v0 = events_view(self.events@);
        self.events.push(event.clone());
        proof {
            assert(events_view(self.events@) =~= v0.push(event@));
        }
        Ok(())
    }

    fn query(&self, filter: AuditFilter) -> (r: Result<Vec<AuditEvent>, StorageError>) {
        let copies = clone_events(&self.events);
        proof {
            assert(events_view(copies@) =~= events_view(self.events@));
        }
        Ok(filter_events(copies, &filter))
    }

    fn get(&self, id: &str) -> (r: Result<Option<AuditEvent>, StorageError>) {
        let n = self.events.len();
        let mut i: usize = 0;
        while i < n
            invariant
                0 <= i <= n,
                n == self.events@.len(),
                forall|k: int| 0 <= k < i ==> (#[trigger] self.events@[k]@).id != id@,
            decreases n - i,
        {
            if str_eq(self.events[i].id.as_str(), id) {
                let found = self.events[i].clone();
                proof {
                    assert(self.view()[i as int] == found@);
                }
                return Ok(Some(found));
            }
            i = i + 1;
        }
        proof {
            assert forall|k: int| 0 <= k < self.view().len()
                implies (#[trigger] self.view()[k]).id != id@ by {
                assert(self.view()[k] == self.events@[k]@);
            }
        }
        Ok(None)
    }

    fn delete_older_than(&mut self, cutoff_ms: i64) -> (r: Result<u64, StorageError>) {
        let ghost v0 = events_view(self.events@);
        let n = self.events.len();
        let mut kept: Vec<AuditEvent> = Vec::new();
        let mut i: usize = 0;
        while i < n
            invariant
                0 <= i <= n,
                n == self.events@.len(),
                v0 == events_view(self.events@),
                v0.len() == n,
                forall|k: int| 0 <= k < n ==> #[trigger] v0[k] == self.events@[k]@,
                kept@.len() <= i,
                events_view(kept@) == spec_keep_recent(v0.take(i as int), cutoff_ms as int),
            decreases n - i,
        {
            let ghost k0 = events_view(kept@);
            if self.events[i].timestamp_ms >= cutoff_ms {
                kept.push(self.events[i].clone());
            }
            proof {
                assert(v0.take(i as int + 1).drop_last() =~= v0.take(i as int));
                assert(v0.take(i as int + 1).last() == v0[i as int]);
                if v0[i as int].timestamp_ms >= cutoff_ms {
                    assert(events_view(kept@) =~= k0.push(self.events@[i as int]@));
                } else {
                    assert(events_view(kept@) =~= k0);
                }
            }
            i = i + 1;
        }
        proof {
            assert(v0.take(n as int) =~= v0);
        }
        let deleted = (n - kept.len()) as u64;
        self.events = kept;
        Ok(deleted)
    }

    fn count(&self, filter: AuditFilter) -> (r: Result<u64, StorageError>) {
        let copies = clone_events(&self.events);
        proof {
            assert(events_view(copies@) =~= events_view(self.events@));
        }
        let matched = filter_events(copies, &filter);
        Ok(matched.len() as u64)
    }

    fn health_check(&self) -> (r: Result<(), StorageError>) {
        Ok(())
    }
}

/// Copies of a vector of events, model for model.
pub(crate) fn clone_events(events: &Vec<AuditEvent>) -> (r: Vec<AuditEvent>)
    ensures
        r@.len() == events@.len(),
        forall|k: int| 0 <= k < events@.len() ==> #[trigger] r@[k]@ == events@[k]@,
{
    let n = events.len();
    let mut out: Vec<AuditEvent> = Vec::new();
    let mut i: usize = 0;
    while i < n
        invariant
            0 <= i <= n,
            n == events@.len(),
            out@.len() == i,
            forall|k: int| 0 <= k < i ==> #[trigger] out@[k]@ == events@[k]@,
        decreases n - i,
    {
        out.push(events[i].clone());
        i = i + 1;
    }
    out
}

/// With nothing filtered away and the window wide enough, a query returns
/// exactly the stored events, newest first; and after deleting with a
/// cutoff above every timestamp, nothing remains.
pub proof fn lemma_query_and_retention_roundtrip(s: Seq<AuditEventSpec>, f: AuditFilter, cutoff: int)
    requires
        forall|k: int| 0 <= k < s.len() ==> spec_matches(#[trigger] s[k], f),
        f.offset == 0,
        f.limit >= s.len(),
        forall|k: int| 0 <= k < s.len() ==> (#[trigger] s[k]).timestamp_ms < cutoff,
    ensures
        spec_query(s, f) == spec_sort_desc(s),
        spec_query(s, f).len() == s.len(),
        spec_keep_recent(s, cutoff) == Seq::<AuditEventSpec>::empty(),
{
    lemma_filter_all_match(s, f);
    lemma_sort_desc_len(s);
    let sorted = spec_sort_desc(s);
    assert(spec_window(sorted, 0, f.limit as int) =~= sorted);
    lemma_keep_recent_none(s, cutoff);
}

/// Filtering keeps everything when everything matches.
proof fn lemma_filter_all_match(s: Seq<AuditEventSpec>, f: AuditFilter)
    requires
        forall|k: int| 0 <= k < s.len() ==> spec_matches(#[trigger] s[k], f),
    ensures
        spec_filter_events(s, f) == s,
    decreases s.len(),
{
    if s.len() == 0 {
        assert(spec_filter_events(s, f) =~= s);
    } else {
        lemma_filter_all_match(s.drop_last(), f);
        assert(spec_filter_events(s, f) =~= s.drop_last().push(s.last()));
        assert(s.drop_last().push(s.last()) =~= s);
    }
}

/// Sorting keeps the number of events.
pub proof fn lemma_sort_desc_len(s: Seq<AuditEventSpec>)
    ensures
        spec_sort_desc(s).len() == s.len(),
    decreases s.len(),
{
    if s.len() > 0 {
        lemma_sort_desc_len(s.drop_last());
        lemma_insert_desc_len(s.last(), spec_sort_desc(s.drop_last()));
    }
}

/// Inserting grows a run by one.
proof fn lemma_insert_desc_len(e: AuditEventSpec, s: Seq<AuditEventSpec>)
    ensures
        spec_insert_desc(e, s).len() == s.len() + 1,
    decreases s.len(),
{
    if s.len() > 0 && !(e.timestamp_ms >= s[0].timestamp_ms) {
        lemma_insert_desc_len(e, s.drop_first());
    }
}

/// Retention keeps nothing when everything is older than the cutoff.
proof fn lemma_keep_recent_none(s: Seq<AuditEventSpec>, cutoff: int)
    requires
        forall|k: int| 0 <= k < s.len() ==> (#[trigger] s[k]).timestamp_ms < cutoff,
    ensures
        spec_keep_recent(s, cutoff) == Seq::<AuditEventSpec>::empty(),
    decreases s.len(),
{
    if s.len() == 0 {
        assert(spec_keep_recent(s, cutoff) =~= Seq::<AuditEventSpec>::empty());
    } else {
        lemma_keep_recent_none(s.drop_last(), cutoff);
    }
}

/// A sorted-descending run: each event is no older than the next.
pub open spec fn spec_sorted_desc(s: Seq<AuditEventSpec>) -> bool {
    forall|a: int, b: int| #![trigger s[a], s[b]]
        0 <= a < b < s.len() ==> s[a].timestamp_ms >= s[b].timestamp_ms
}

/// What sorting promises: the result is a descending run.
pub proof fn lemma_sort_desc_sorted(s: Seq<AuditEventSpec>)
    ensures
        spec_sorted_desc(spec_sort_desc(s)),
    decreases s.len(),
{
    if s.len() > 0 {
        lemma_sort_desc_sorted(s.drop_last());
        lemma_insert_desc_sorted(s.last(), spec_sort_desc(s.drop_last()));
    }
}

/// Inserting into a descending run keeps it descending.
proof fn lemma_insert_desc_sorted(e: AuditEventSpec, s: Seq<AuditEventSpec>)
    requires
        spec_sorted_desc(s),
    ensures
        spec_sorted_desc(spec_insert_desc(e, s)),
    decreases s.len(),
{
    lemma_insert_desc_len(e, s);
    if s.len() == 0 {
    } else if e.timestamp_ms >= s[0].timestamp_ms {
        let r = seq![e] + s;
        assert forall|a: int, b: int| #![trigger r[a], r[b]] 0 <= a < b < r.len()
            implies r[a].timestamp_ms >= r[b].timestamp_ms by {
            if a == 0 {
                assert(r[b] == s[b - 1]);
                if b > 1 {
                    assert(s[0].timestamp_ms >= s[b - 1].timestamp_ms);
                }
            } else {
                assert(r[a] == s[a - 1]);
                assert(r[b] == s[b - 1]);
            }
        }
    } else {
        assert forall|a: int, b: int| #![trigger s.drop_first()[a], s.drop_first()[b]]
            0 <= a < b < s.drop_first().len()
            implies s.drop_first()[a].timestamp_ms >= s.drop_first()[b].timestamp_ms by {
            assert(s.drop_first()[a] == s[a + 1]);
            assert(s.drop_first()[b] == s[b + 1]);
        }
        lemma_insert_desc_sorted(e, s.drop_first());
        let inner = spec_insert_desc(e, s.drop_first());
        let r = seq![s[0]] + inner;
        lemma_insert_desc_first_bound(e, s.drop_first(), s[0].timestamp_ms);
        assert forall|a: int, b: int| #![trigger r[a], r[b]] 0 <= a < b < r.len()
            implies r[a].timestamp_ms >= r[b].timestamp_ms by {
            if a == 0 {
                assert(r[b] == inner[b - 1]);
            } else {
                assert(r[a] == inner[a - 1]);
                assert(r[b] == inner[b - 1]);
            }
        }
    }
}

/// Every event of an insertion stays bounded by a bound on the run and
/// the inserted event.
proof fn lemma_insert_desc_first_bound(e: AuditEventSpec, s: Seq<AuditEventSpec>, bound: int)
    requires
        bound > e.timestamp_ms,
        forall|k: int| 0 <= k < s.len() ==> bound >= #[trigger] s[k].timestamp_ms,
    ensures
        forall|k: int| 0 <= k < spec_insert_desc(e, s).len()
            ==> bound >= #[trigger] spec_insert_desc(e, s)[k].timestamp_ms,
    decreases s.len(),
{
    lemma_insert_desc_len(e, s);
    if s.len() == 0 {
    } else if e.timestamp_ms >= s[0].timestamp_ms {
    } else {
        assert forall|k: int| 0 <= k < s.drop_first().len()
            implies bound >= #[trigger] s.drop_first()[k].timestamp_ms by {
            assert(s.drop_first()[k] == s[k + 1]);
        }
        lemma_insert_desc_first_bound(e, s.drop_first(), bound);
        let r = seq![s[0]] + spec_insert_desc(e, s.drop_first());
        assert forall|k: int| 0 <= k < r.len()
            implies bound >= #[trigger] r[k].timestamp_ms by {
            if k > 0 {
                assert(r[k] == spec_insert_desc(e, s.drop_first())[k - 1]);
            }
        }
    }
}

} // verus!
