//! Architectural decisions: recording, superseding, and the active set.

use crate::ids::{self, current_time, fresh_id, format_time, id_text};
use crate::models::{
    self, Decision, DecisionStatus, DecisionStore, DecisionView, NexusError, TimelineEvent,
    TimelineEventKind, Timestamp,
};
use crate::order::{self, stable_desc_order};
use crate::text::{
    self, append_str, dup_opt_string, dup_strings, join_strings, push_decimal, str_starts_with,
    to_lower, trim_text, truncate_chars,
};
use vstd::prelude::*;

verus! {

/// The form under which two decision texts count as the same decision.
pub open spec fn normalized(s: Seq<char>) -> Seq<char> {
    text::lowercase_text(text::trimmed_text(s))
}

/// Trims and lower-cases a decision text.
pub fn normalize(s: &str) -> (r: String)
    ensures
        r@ == normalized(s@),
{
    let t = trim_text(s);
    to_lower(t)
}

impl Decision {
    /// A copy of this decision.
    pub fn duplicate(&self) -> (r: Decision)
        ensures
            r@ == self@,
    {
        Decision {
            id: self.id,
            content: self.content.clone(),
            rationale: dup_opt_string(&self.rationale),
            tags: dup_strings(&self.tags),
            created_at: self.created_at,
            author: dup_opt_string(&self.author),
            status: self.status,
        }
    }
}

/// The text of the decision id the user asked to supersede: trimmed, and only when not empty.
pub open spec fn supersede_prefix(supersedes: Option<String>) -> Option<Seq<char>> {
    match supersedes {
        Some(s) => if text::trimmed_text(s@).len() > 0 {
            Some(text::trimmed_text(s@))
        } else {
            None
        },
        None => None,
    }
}

/// The textual id of `d` starts with `prefix`.
pub open spec fn id_matches(d: DecisionView, prefix: Seq<char>) -> bool {
    text::seq_starts_with(ids::uuid_text(d.id), prefix)
}

/// `i` is the first position whose decision id starts with `prefix`.
pub open spec fn is_first_id_match(ds: Seq<DecisionView>, prefix: Seq<char>, i: int) -> bool {
    &&& 0 <= i < ds.len()
    &&& id_matches(ds[i], prefix)
    &&& forall|j: int| 0 <= j < i ==> !#[trigger] id_matches(ds[j], prefix)
}

/// `d` is active and says `key` once normalized.
pub open spec fn same_active(d: DecisionView, key: Seq<char>) -> bool {
    d.status == DecisionStatus::Active && normalized(d.content@) == key
}

/// `i` is the first position holding an active decision that says `key`.
pub open spec fn is_first_same_active(ds: Seq<DecisionView>, key: Seq<char>, i: int) -> bool {
    &&& 0 <= i < ds.len()
    &&& same_active(ds[i], key)
    &&& forall|j: int| 0 <= j < i ==> !#[trigger] same_active(ds[j], key)
}

/// `d` with another status.
pub open spec fn with_status(d: DecisionView, status: DecisionStatus) -> DecisionView {
    DecisionView { status, ..d }
}

/// The decision created by a record call.
pub open spec fn fresh_decision(
    id: u128,
    content: String,
    rationale: Option<String>,
    tags: Seq<String>,
    author: Option<String>,
    now: Timestamp,
) -> DecisionView {
    DecisionView {
        id,
        content,
        rationale,
        tags,
        created_at: now,
        author,
        status: DecisionStatus::Active,
    }
}

/// What recording `fresh` into decisions `ds` gives: the decisions `ds2` afterwards and the result `r`.
pub open spec fn record_outcome(
    ds: Seq<DecisionView>,
    ds2: Seq<DecisionView>,
    r: Result<Recorded, NexusError>,
    fresh: DecisionView,
    prefix: Option<Seq<char>>,
    key: Seq<char>,
) -> bool {
    match prefix {
        Some(pre) => if exists|i: int| is_first_id_match(ds, pre, i) {
            exists|i: int|
                #![trigger is_first_id_match(ds, pre, i)]
                {
                    &&& is_first_id_match(ds, pre, i)
                    &&& ds2 == ds.update(i, with_status(ds[i], DecisionStatus::Superseded)).push(fresh)
                    &&& r matches Ok(rec)
                    &&& rec.created
                    &&& rec.superseded == Some(ds[i].id)
                    &&& rec.decision@ == fresh
                }
        } else {
            &&& ds2 == ds
            &&& r matches Err(NexusError::UnknownDecision(p))
            &&& p@ == pre
        },
        None => if exists|j: int| is_first_same_active(ds, key, j) {
            exists|j: int|
                #![trigger is_first_same_active(ds, key, j)]
                {
                    &&& is_first_same_active(ds, key, j)
                    &&& ds2 == ds
                    &&& r matches Ok(rec)
                    &&& !rec.created
                    &&& rec.superseded is None
                    &&& rec.decision@ == ds[j]
                }
        } else {
            &&& ds2 == ds.push(fresh)
            &&& r matches Ok(rec)
            &&& rec.created
            &&& rec.superseded is None
            &&& rec.decision@ == fresh
        },
    }
}

/// The sort key of a decision: its creation instant, seconds first then nanoseconds.
pub open spec fn decision_key(d: DecisionView) -> int {
    d.created_at.secs * 4294967296 + d.created_at.nanos
}

/// `j` is the first position of `reps` whose decision says `key` once normalized.
pub open spec fn is_first_key(reps: Seq<DecisionView>, key: Seq<char>, j: int) -> bool {
    &&& 0 <= j < reps.len()
    &&& normalized(reps[j].content@) == key
    &&& forall|k: int| 0 <= k < j ==> normalized(#[trigger] reps[k].content@) != key
}

/// The first position of `reps` whose decision says `key`, or -1.
pub open spec fn key_index(reps: Seq<DecisionView>, key: Seq<char>) -> int {
    if exists|j: int| is_first_key(reps, key, j) {
        choose|j: int| is_first_key(reps, key, j)
    } else {
        -1
    }
}

/// One active decision per distinct (normalized) text, in order of first
/// appearance: the earliest-recorded among those created last.
pub open spec fn latest_active_by_content(ds: Seq<DecisionView>) -> Seq<DecisionView>
    decreases ds.len(),
{
    if ds.len() == 0 {
        Seq::empty()
    } else {
        let reps = latest_active_by_content(ds.drop_last());
        let d = ds.last();
        if d.status != DecisionStatus::Active {
            reps
        } else {
            let j = key_index(reps, normalized(d.content@));
            if j < 0 {
                reps.push(d)
            } else if models::earlier(reps[j].created_at, d.created_at) {
                reps.update(j, d)
            } else {
                reps
            }
        }
    }
}

proof fn lemma_first_key_unique(reps: Seq<DecisionView>, key: Seq<char>, j: int)
    requires
        is_first_key(reps, key, j),
    ensures
        key_index(reps, key) == j,
{
    let c = choose|c: int| is_first_key(reps, key, c);
    assert(is_first_key(reps, key, c));
    if c < j {
        assert(normalized(reps[c].content@) != key);
    } else if j < c {
        assert(normalized(reps[j].content@) != key);
    }
}

/// First position of `reps` holding a decision whose normalized text is `key`.
fn find_key(reps: &Vec<Decision>, key: &String) -> (r: Option<usize>)
    ensures
        match r {
            Some(j) => key_index(models::decision_views(reps@), key@) == j as int && j < reps@.len(),
            None => key_index(models::decision_views(reps@), key@) == -1,
        },
{
    let ghost vs = models::decision_views(reps@);
    let mut i: usize = 0;
    while i < reps.len()
        invariant
            i <= reps@.len(),
            vs == models::decision_views(reps@),
            forall|k: int| 0 <= k < i ==> normalized(#[trigger] vs[k].content@) != key@,
        decreases reps@.len() - i,
    {
        let n = normalize(reps[i].content.as_str());
        if n == *key {
            proof {
                lemma_first_key_unique(vs, key@, i as int);
            }
            return Some(i);
        }
        i = i + 1;
    }
    assert(!exists|j: int| is_first_key(vs, key@, j));
    None
}

/// The creation instant of a decision as a sort key.
fn creation_key(d: &Decision) -> (k: i128)
    ensures
        k as int == decision_key(d@),
{
    d.created_at.secs as i128 * 4294967296 + d.created_at.nanos as i128
}

/// The first line of the listing of decision `d` at position `i` (counted from zero).
pub open spec fn entry_head(i: nat, d: DecisionView) -> Seq<char> {
    text::decimal_text(i + 1) + ". ["@ + ids::time_text(d.created_at, "%Y-%m-%d %H:%M UTC"@) + "] "@
        + d.content@ + "\n"@
}

/// The rationale line of a decision's listing, when it has one.
pub open spec fn rationale_part(d: DecisionView) -> Seq<char> {
    match d.rationale {
        Some(r) => "   Rationale: "@ + r@ + "\n"@,
        None => Seq::<char>::empty(),
    }
}

/// The tags line of a decision's listing, when it has tags.
pub open spec fn tags_part(d: DecisionView) -> Seq<char> {
    if d.tags.len() > 0 {
        "   Tags: "@ + text::join_text(text::texts(d.tags), ", "@) + "\n"@
    } else {
        Seq::<char>::empty()
    }
}

/// The listing of decision `d` at position `i` (counted from zero).
pub open spec fn decision_entry(i: nat, d: DecisionView) -> Seq<char> {
    entry_head(i, d) + rationale_part(d) + tags_part(d) + "\n"@
}

/// The listings of all decisions in order.
pub open spec fn decision_entries(ds: Seq<DecisionView>) -> Seq<char>
    decreases ds.len(),
{
    if ds.len() == 0 {
        Seq::empty()
    } else {
        decision_entries(ds.drop_last()) + decision_entry((ds.len() - 1) as nat, ds.last())
    }
}

/// The text shown for a list of decisions, numbered in the order given (`format_all`
/// passes them in chronological order).
pub open spec fn decisions_report(ds: Seq<DecisionView>) -> Seq<char> {
    if ds.len() == 0 {
        "No decisions recorded yet."@
    } else {
        "ARCHITECTURAL DECISIONS\n\n"@ + decision_entries(ds)
    }
}

/// The outcome of recording a decision.
#[derive(Debug)]
pub struct Recorded {
    /// The new decision, or the identical active one that already stood.
    pub decision: Decision,
    /// Whether a new decision was added to the store.
    pub created: bool,
    /// The id of the decision marked superseded, if any.
    pub superseded: Option<u128>,
}

/// The sort key for chronological order: earlier instants first.
pub open spec fn chronology_key(d: DecisionView) -> int {
    -decision_key(d)
}

/// `sorted` is `ds` in chronological order, decisions created at the same instant in
/// their stored order.
pub open spec fn chronological(ds: Seq<DecisionView>, sorted: Seq<DecisionView>) -> bool {
    order::is_stable_desc_arrangement(ds, sorted, |d: DecisionView| chronology_key(d))
}

/// The decisions in chronological order (a stable sort by creation instant).
fn chronological_order(ds: &Vec<Decision>) -> (r: Vec<Decision>)
    ensures
        chronological(models::decision_views(ds@), models::decision_views(r@)),
{
    let ghost vs = models::decision_views(ds@);
    let mut keys: Vec<i128> = Vec::new();
    let mut k: usize = 0;
    while k < ds.len()
        invariant
            k <= ds@.len(),
            vs == models::decision_views(ds@),
            keys@.len() == k,
            forall|a: int| 0 <= a < k ==> #[trigger] keys@[a] as int == chronology_key(vs[a]),
        decreases ds@.len() - k,
    {
        keys.push(-creation_key(&ds[k]));
        k = k + 1;
    }
    let order = stable_desc_order(&keys);
    let ghost ord = order@.map_values(|x: usize| x as int);
    assert(keys@.map_values(|x: i128| x as int) =~= vs.map_values(|d: DecisionView| chronology_key(d)));
    let mut out: Vec<Decision> = Vec::new();
    let mut m: usize = 0;
    while m < order.len()
        invariant
            m <= order@.len(),
            vs == models::decision_views(ds@),
            ord == order@.map_values(|x: usize| x as int),
            order::is_stable_desc_order(vs.map_values(|d: DecisionView| chronology_key(d)), ord),
            out@.len() == m,
            forall|a: int| 0 <= a < m ==> #[trigger] out@[a]@ == vs[ord[a]],
        decreases order@.len() - m,
    {
        assert(0 <= ord[m as int] < vs.len());
        out.push(ds[order[m]].duplicate());
        m = m + 1;
    }
    let ghost ov = models::decision_views(out@);
    assert(order::is_stable_desc_order(vs.map_values(|d: DecisionView| chronology_key(d)), ord));
    assert(forall|a: int| 0 <= a < ov.len() ==> #[trigger] ov[a] == vs[ord[a]]);
    out
}

/// Records decisions against a decision store held in memory.
pub struct DecisionEngine {
    pub store: DecisionStore,
}

/// First position whose decision id starts with `prefix`.
fn find_by_id_prefix(ds: &Vec<Decision>, prefix: &str) -> (r: Option<usize>)
    ensures
        match r {
            Some(i) => is_first_id_match(models::decision_views(ds@), prefix@, i as int),
            None => forall|j: int| 0 <= j < ds@.len() ==> !#[trigger] id_matches(models::decision_views(ds@)[j], prefix@),
        },
{
    let ghost vs = models::decision_views(ds@);
    let mut i: usize = 0;
    while i < ds.len()
        invariant
            i <= ds@.len(),
            vs == models::decision_views(ds@),
            forall|j: int| 0 <= j < i ==> !#[trigger] id_matches(vs[j], prefix@),
        decreases ds@.len() - i,
    {
        let t = id_text(ds[i].id);
        if str_starts_with(t.as_str(), prefix) {
            return Some(i);
        }
        i = i + 1;
    }
    None
}

/// First position holding an active decision whose normalized text is `key`.
fn find_same_active(ds: &Vec<Decision>, key: &String) -> (r: Option<usize>)
    ensures
        match r {
            Some(i) => is_first_same_active(models::decision_views(ds@), key@, i as int),
            None => forall|j: int| 0 <= j < ds@.len() ==> !#[trigger] same_active(models::decision_views(ds@)[j], key@),
        },
{
    let ghost vs = models::decision_views(ds@);
    let mut i: usize = 0;
    while i < ds.len()
        invariant
            i <= ds@.len(),
            vs == models::decision_views(ds@),
            forall|j: int| 0 <= j < i ==> !#[trigger] same_active(vs[j], key@),
        decreases ds@.len() - i,
    {
        if ds[i].status == DecisionStatus::Active {
            let n = normalize(ds[i].content.as_str());
            if n == *key {
                return Some(i);
            }
        }
        i = i + 1;
    }
    None
}

fn append_head(out: &mut String, i: usize, d: &Decision)
    requires
        i < usize::MAX,
    ensures
        final(out)@ == old(out)@ + entry_head(i as nat, d@),
{
    let ghost s0 = out@;
    push_decimal(out, i + 1);
    append_str(out, ". [");
    let when = format_time(d.created_at, "%Y-%m-%d %H:%M UTC");
    append_str(out, when.as_str());
    append_str(out, "] ");
    append_str(out, d.content.as_str());
    append_str(out, "\n");
    assert(out@ =~= s0 + entry_head(i as nat, d@));
}

fn append_rationale(out: &mut String, d: &Decision)
    ensures
        final(out)@ == old(out)@ + rationale_part(d@),
{
    let ghost s0 = out@;
    if let Some(r) = &d.rationale {
        append_str(out, "   Rationale: ");
        append_str(out, r.as_str());
        append_str(out, "\n");
        assert(out@ =~= s0 + rationale_part(d@));
    } else {
        assert(out@ =~= s0 + rationale_part(d@));
    }
}

fn append_tags(out: &mut String, d: &Decision)
    ensures
        final(out)@ == old(out)@ + tags_part(d@),
{
    let ghost s0 = out@;
    if d.tags.len() > 0 {
        append_str(out, "   Tags: ");
        let joined = join_strings(&d.tags, ", ");
        append_str(out, joined.as_str());
        append_str(out, "\n");
        assert(out@ =~= s0 + tags_part(d@));
    } else {
        assert(out@ =~= s0 + tags_part(d@));
    }
}

/// Appends the listing of decision `d` at position `i`.
fn append_entry(out: &mut String, i: usize, d: &Decision)
    requires
        i < usize::MAX,
    ensures
        final(out)@ == old(out)@ + decision_entry(i as nat, d@),
{
    let ghost s0 = out@;
    append_head(out, i, d);
    append_rationale(out, d);
    append_tags(out, d);
    append_str(out, "\n");
    assert(out@ =~= s0 + decision_entry(i as nat, d@));
}

impl DecisionEngine {
    /// An engine over a decision store.
    pub fn new(store: DecisionStore) -> (r: DecisionEngine)
        ensures
            r.store.version == store.version,
            models::decision_views(r.store.decisions@) == models::decision_views(store.decisions@),
    {
        DecisionEngine { store }
    }

    /// Records a decision (see `record_with_supersedes`).
    pub fn record(
        &mut self,
        content: String,
        rationale: Option<String>,
        tags: Vec<String>,
        author: Option<String>,
    ) -> (r: Result<Recorded, NexusError>)
        ensures
            final(self).store.version == old(self).store.version,
            exists|id: u128, now: Timestamp|
                #[trigger] record_outcome(
                    models::decision_views(old(self).store.decisions@),
                    models::decision_views(final(self).store.decisions@),
                    r,
                    fresh_decision(id, content, rationale, tags@, author, now),
                    None,
                    normalized(content@),
                ),
            r is Ok,
    {
        self.record_with_supersedes(content, rationale, tags, author, None)
    }

    /// Records a decision with a fresh random id and the current time, optionally
    /// superseding the decision whose id starts with `supersedes` (see `record_at`).
    pub fn record_with_supersedes(
        &mut self,
        content: String,
        rationale: Option<String>,
        tags: Vec<String>,
        author: Option<String>,
        supersedes: Option<String>,
    ) -> (r: Result<Recorded, NexusError>)
        ensures
            final(self).store.version == old(self).store.version,
            exists|id: u128, now: Timestamp|
                #[trigger] record_outcome(
                    models::decision_views(old(self).store.decisions@),
                    models::decision_views(final(self).store.decisions@),
                    r,
                    fresh_decision(id, content, rationale, tags@, author, now),
                    supersede_prefix(supersedes),
                    normalized(content@),
                ),
            supersede_prefix(supersedes) is None ==> r is Ok,
    {
        let id = fresh_id();
        let now = current_time();
        let ghost pre = supersede_prefix(supersedes);
        let ghost key = normalized(content@);
        let ghost ts = tags@;
        let ghost c = content;
        let ghost ra = rationale;
        let ghost au = author;
        let r = self.record_at(content, rationale, tags, author, supersedes, id, now);
        assert(record_outcome(
            models::decision_views(old(self).store.decisions@),
            models::decision_views(self.store.decisions@),
            r,
            fresh_decision(id, c, ra, ts, au, now),
            pre,
            key,
        ));
        r
    }

    /// Records a decision with the given id and time.
    ///
    /// With a non-empty (trimmed) `supersedes`, the first decision whose id starts
    /// with it is marked superseded and the new decision is appended; when no id
    /// matches, the store is left as it was and the call fails. Without it, an
    /// active decision saying the same (trimmed, lower-cased) thing is returned
    /// instead of recording a duplicate.
    pub fn record_at(
        &mut self,
        content: String,
        rationale: Option<String>,
        tags: Vec<String>,
        author: Option<String>,
        supersedes: Option<String>,
        id: u128,
        now: Timestamp,
    ) -> (r: Result<Recorded, NexusError>)
        ensures
            final(self).store.version == old(self).store.version,
            record_outcome(
                models::decision_views(old(self).store.decisions@),
                models::decision_views(final(self).store.decisions@),
                r,
                fresh_decision(id, content, rationale, tags@, author, now),
                supersede_prefix(supersedes),
                normalized(content@),
            ),
    {
        let ghost ds = models::decision_views(self.store.decisions@);
        let ghost fresh = fresh_decision(id, content, rationale, tags@, author, now);
        let ghost key_spec = normalized(content@);
        let decision = Decision {
            id,
            content,
            rationale,
            tags,
            created_at: now,
            author,
            status: DecisionStatus::Active,
        };
        assert(decision@ == fresh);
        if let Some(s) = &supersedes {
            let pre = trim_text(s.as_str());
            if !pre.is_empty() {
                assert(supersede_prefix(supersedes) == Some(pre@));
                match find_by_id_prefix(&self.store.decisions, pre) {
                    Some(i) => {
                        let target_id = self.store.decisions[i].id;
                        self.store.decisions[i].status = DecisionStatus::Superseded;
                        let ghost mid = ds.update(i as int, with_status(ds[i as int], DecisionStatus::Superseded));
                        assert(models::decision_views(self.store.decisions@) =~= mid);
                        let stored = decision.duplicate();
                        self.store.decisions.push(stored);
                        assert(models::decision_views(self.store.decisions@) =~= mid.push(fresh));
                        let r = Ok(Recorded { decision, created: true, superseded: Some(target_id) });
                        assert(is_first_id_match(ds, pre@, i as int));
                        assert(exists|k: int| is_first_id_match(ds, pre@, k));
                        return r;
                    },
                    None => {
                        assert(!exists|k: int| is_first_id_match(ds, pre@, k));
                        return Err(NexusError::UnknownDecision(pre.to_owned()));
                    },
                }
            }
        }
        assert(supersede_prefix(supersedes) is None);
        let key = normalize(decision.content.as_str());
        match find_same_active(&self.store.decisions, &key) {
            Some(j) => {
                let existing = self.store.decisions[j].duplicate();
                assert(is_first_same_active(ds, key_spec, j as int));
                assert(exists|k: int| is_first_same_active(ds, key_spec, k));
                Ok(Recorded { decision: existing, created: false, superseded: None })
            },
            None => {
                assert(!exists|k: int| is_first_same_active(ds, key_spec, k));
                let stored = decision.duplicate();
                self.store.decisions.push(stored);
                assert(models::decision_views(self.store.decisions@) =~= ds.push(fresh));
                Ok(Recorded { decision, created: true, superseded: None })
            },
        }
    }

    /// Every decision, in recording order.
    pub fn list(&self) -> (r: Vec<Decision>)
        ensures
            models::decision_views(r@) == models::decision_views(self.store.decisions@),
    {
        let mut out: Vec<Decision> = Vec::new();
        let mut i: usize = 0;
        while i < self.store.decisions.len()
            invariant
                i <= self.store.decisions@.len(),
                out@.len() == i,
                forall|k: int| 0 <= k < i ==> #[trigger] out@[k]@ == self.store.decisions@[k]@,
            decreases self.store.decisions@.len() - i,
        {
            out.push(self.store.decisions[i].duplicate());
            i = i + 1;
        }
        assert(models::decision_views(out@) =~= models::decision_views(self.store.decisions@));
        out
    }

    /// Every decision in chronological order (by creation instant, decisions created at the
    /// same instant in stored order), numbered from 1 with its date, rationale and tags.
    pub fn format_all(&self) -> (r: String)
        ensures
            exists|sorted: Seq<DecisionView>|
                #[trigger] chronological(models::decision_views(self.store.decisions@), sorted)
                    && r@ == decisions_report(sorted),
    {
        let sorted = chronological_order(&self.store.decisions);
        let ghost vs = models::decision_views(sorted@);
        if sorted.len() == 0 {
            assert(chronological(models::decision_views(self.store.decisions@), vs));
            return "No decisions recorded yet.".to_owned();
        }
        let mut out = "ARCHITECTURAL DECISIONS\n\n".to_owned();
        let mut i: usize = 0;
        while i < sorted.len()
            invariant
                i <= vs.len(),
                vs == models::decision_views(sorted@),
                out@ == "ARCHITECTURAL DECISIONS\n\n"@ + decision_entries(vs.take(i as int)),
            decreases vs.len() - i,
        {
            let d = &sorted[i];
            let ghost before = out@;
            append_entry(&mut out, i, d);
            assert(out@ == before + decision_entry(i as nat, vs[i as int]));
            assert(vs.take(i + 1).drop_last() =~= vs.take(i as int));
            assert(vs[i as int] == d@);
            i = i + 1;
        }
        assert(vs.take(vs.len() as int) =~= vs);
        assert(chronological(models::decision_views(self.store.decisions@), vs));
        out
    }

    /// The active decisions, one per distinct trimmed, lower-cased text (the one
    /// created last), newest first.
    pub fn list_active(&self) -> (r: Vec<Decision>)
        ensures
            order::is_stable_desc_arrangement(
                latest_active_by_content(models::decision_views(self.store.decisions@)),
                models::decision_views(r@),
                |d: DecisionView| decision_key(d),
            ),
    {
        let ghost vs = models::decision_views(self.store.decisions@);
        let mut reps: Vec<Decision> = Vec::new();
        let mut i: usize = 0;
        while i < self.store.decisions.len()
            invariant
                i <= vs.len(),
                vs == models::decision_views(self.store.decisions@),
                models::decision_views(reps@) == latest_active_by_content(vs.take(i as int)),
            decreases vs.len() - i,
        {
            let ghost prev = models::decision_views(reps@);
            assert(vs.take(i + 1).drop_last() =~= vs.take(i as int));
            assert(vs.take(i + 1).last() == vs[i as int]);
            let d = &self.store.decisions[i];
            if d.status == DecisionStatus::Active {
                let key = normalize(d.content.as_str());
                match find_key(&reps, &key) {
                    None => {
                        reps.push(d.duplicate());
                        assert(models::decision_views(reps@) =~= prev.push(vs[i as int]));
                    },
                    Some(j) => {
                        if models::is_earlier(reps[j].created_at, d.created_at) {
                            reps.set(j, d.duplicate());
                            assert(models::decision_views(reps@) =~= prev.update(j as int, vs[i as int]));
                        }
                    },
                }
            }
            i = i + 1;
        }
        assert(vs.take(vs.len() as int) =~= vs);
        let ghost rv = models::decision_views(reps@);
        let mut keys: Vec<i128> = Vec::new();
        let mut k: usize = 0;
        while k < reps.len()
            invariant
                k <= reps@.len(),
                rv == models::decision_views(reps@),
                keys@.len() == k,
                forall|a: int| 0 <= a < k ==> #[trigger] keys@[a] as int == decision_key(rv[a]),
            decreases reps@.len() - k,
        {
            keys.push(creation_key(&reps[k]));
            k = k + 1;
        }
        let order = stable_desc_order(&keys);
        let ghost ord = order@.map_values(|x: usize| x as int);
        assert(keys@.map_values(|x: i128| x as int) =~= rv.map_values(|d: DecisionView| decision_key(d)));
        let mut out: Vec<Decision> = Vec::new();
        let mut m: usize = 0;
        while m < order.len()
            invariant
                m <= order@.len(),
                rv == models::decision_views(reps@),
                ord == order@.map_values(|x: usize| x as int),
                order::is_stable_desc_order(rv.map_values(|d: DecisionView| decision_key(d)), ord),
                out@.len() == m,
                forall|a: int| 0 <= a < m ==> #[trigger] out@[a]@ == rv[ord[a]],
            decreases order@.len() - m,
        {
            assert(0 <= ord[m as int] < rv.len());
            out.push(reps[order[m]].duplicate());
            m = m + 1;
        }
        let ghost ov = models::decision_views(out@);
        assert(order::is_stable_desc_order(rv.map_values(|d: DecisionView| decision_key(d)), ord));
        assert(forall|a: int| 0 <= a < ov.len() ==> #[trigger] ov[a] == rv[ord[a]]);
        out
    }
}

/// The JSON metadata of a decision's timeline event: the decision's id and the id of
/// the decision it superseded, if any.
pub open spec fn decision_event_metadata(id: u128, superseded: Option<u128>) -> Seq<char> {
    "{\"decision_id\":\""@ + ids::uuid_text(id) + "\",\"supersedes\":"@ + match superseded {
        Some(s) => "\""@ + ids::uuid_text(s) + "\""@,
        None => "null"@,
    } + "}"@
}

/// The timeline event that records a newly created decision: its text cut to 80
/// characters as the title, its rationale as the description, at its creation instant.
pub fn decision_event(rec: &Recorded, event_id: u128) -> (e: TimelineEvent)
    ensures
        e.id == event_id,
        e.kind == TimelineEventKind::Decision,
        e.title@ == text::truncated_text(rec.decision.content@, 80),
        e.description == rec.decision.rationale,
        e.timestamp == rec.decision.created_at,
        e.metadata@ == decision_event_metadata(rec.decision.id, rec.superseded),
{
    let mut metadata = "{\"decision_id\":\"".to_owned();
    let id = id_text(rec.decision.id);
    append_str(&mut metadata, id.as_str());
    append_str(&mut metadata, "\",\"supersedes\":");
    match rec.superseded {
        Some(s) => {
            append_str(&mut metadata, "\"");
            let sid = id_text(s);
            append_str(&mut metadata, sid.as_str());
            append_str(&mut metadata, "\"");
        },
        None => {
            append_str(&mut metadata, "null");
        },
    }
    append_str(&mut metadata, "}");
    TimelineEvent {
        id: event_id,
        kind: TimelineEventKind::Decision,
        title: truncate_chars(rec.decision.content.as_str(), 80),
        description: dup_opt_string(&rec.decision.rationale),
        timestamp: rec.decision.created_at,
        metadata,
    }
}

// ─── Laws of the active list ─────────────────────────────────────────────────

proof fn lemma_key_index_range(reps: Seq<DecisionView>, key: Seq<char>)
    ensures
        -1 <= key_index(reps, key) < reps.len(),
        key_index(reps, key) >= 0 ==> is_first_key(reps, key, key_index(reps, key)),
{
    if exists|j: int| is_first_key(reps, key, j) {
        let j = choose|j: int| is_first_key(reps, key, j);
        assert(is_first_key(reps, key, j));
    }
}

proof fn lemma_first_key_exists(reps: Seq<DecisionView>, key: Seq<char>, j: int)
    requires
        0 <= j < reps.len(),
        normalized(reps[j].content@) == key,
    ensures
        exists|f: int| is_first_key(reps, key, f),
    decreases j,
{
    if exists|k: int| 0 <= k < j && normalized(#[trigger] reps[k].content@) == key {
        let k = choose|k: int| 0 <= k < j && normalized(#[trigger] reps[k].content@) == key;
        lemma_first_key_exists(reps, key, k);
    } else {
        assert(is_first_key(reps, key, j));
    }
}

proof fn lemma_no_key(reps: Seq<DecisionView>, key: Seq<char>)
    requires
        key_index(reps, key) < 0,
    ensures
        forall|j: int| 0 <= j < reps.len() ==> normalized(#[trigger] reps[j].content@) != key,
{
    assert forall|j: int| 0 <= j < reps.len() implies normalized(#[trigger] reps[j].content@) != key by {
        if normalized(reps[j].content@) == key {
            lemma_first_key_exists(reps, key, j);
        }
    }
}

/// Every entry of the active list (`list_active`, before its ordering by time) is an
/// active decision of the store.
pub proof fn law_active_entries(ds: Seq<DecisionView>)
    ensures
        forall|k: int|
            0 <= k < latest_active_by_content(ds).len() ==> (#[trigger] latest_active_by_content(
                ds,
            )[k]).status == DecisionStatus::Active && ds.contains(latest_active_by_content(ds)[k]),
    decreases ds.len(),
{
    let l = latest_active_by_content(ds);
    if ds.len() == 0 {
        return;
    }
    let p = ds.drop_last();
    law_active_entries(p);
    let reps = latest_active_by_content(p);
    let d = ds.last();
    let n = ds.len() - 1;
    assert forall|k: int| 0 <= k < reps.len() implies ds.contains(#[trigger] reps[k]) by {
        assert(p.contains(reps[k]));
        let i = choose|i: int| 0 <= i < p.len() && p[i] == reps[k];
        assert(ds[i] == p[i]);
    }
    if d.status == DecisionStatus::Active {
        let key = normalized(d.content@);
        lemma_key_index_range(reps, key);
        assert forall|k: int| 0 <= k < l.len() implies (#[trigger] l[k]).status == DecisionStatus::Active
            && ds.contains(l[k]) by {
            if l[k] == d {
                assert(ds[n] == l[k]);
            } else {
                assert(l[k] == reps[k]);
            }
        }
    }
}

/// No two entries of the active list say the same thing once trimmed and lower-cased.
pub proof fn law_active_distinct(ds: Seq<DecisionView>)
    ensures
        forall|a: int, b: int|
            0 <= a < b < latest_active_by_content(ds).len() ==> normalized(
                (#[trigger] latest_active_by_content(ds)[a]).content@,
            ) != normalized((#[trigger] latest_active_by_content(ds)[b]).content@),
    decreases ds.len(),
{
    let l = latest_active_by_content(ds);
    if ds.len() == 0 {
        return;
    }
    let p = ds.drop_last();
    law_active_distinct(p);
    let reps = latest_active_by_content(p);
    let d = ds.last();
    if d.status == DecisionStatus::Active {
        let key = normalized(d.content@);
        let j = key_index(reps, key);
        lemma_key_index_range(reps, key);
        if j < 0 {
            lemma_no_key(reps, key);
            assert forall|a: int, b: int| 0 <= a < b < l.len() implies normalized(
                (#[trigger] l[a]).content@,
            ) != normalized((#[trigger] l[b]).content@) by {
                assert(l[a] == reps[a]);
                if b < reps.len() {
                    assert(l[b] == reps[b]);
                }
            }
        } else if models::earlier(reps[j].created_at, d.created_at) {
            assert forall|a: int, b: int| 0 <= a < b < l.len() implies normalized(
                (#[trigger] l[a]).content@,
            ) != normalized((#[trigger] l[b]).content@) by {
                assert(normalized(l[a].content@) == normalized(reps[a].content@));
                assert(normalized(l[b].content@) == normalized(reps[b].content@));
            }
        }
    }
}

/// Every text that an active decision has is represented in the active list.
pub proof fn law_active_covers(ds: Seq<DecisionView>)
    ensures
        forall|m: int|
            0 <= m < ds.len() && (#[trigger] ds[m]).status == DecisionStatus::Active ==> exists|k: int|
                0 <= k < latest_active_by_content(ds).len() && normalized(
                    (#[trigger] latest_active_by_content(ds)[k]).content@,
                ) == normalized(ds[m].content@),
    decreases ds.len(),
{
    let l = latest_active_by_content(ds);
    if ds.len() == 0 {
        return;
    }
    let p = ds.drop_last();
    law_active_covers(p);
    let reps = latest_active_by_content(p);
    let d = ds.last();
    let n = ds.len() - 1;
    let key = normalized(d.content@);
    let j = key_index(reps, key);
    lemma_key_index_range(reps, key);
    assert forall|m: int|
        0 <= m < ds.len() && (#[trigger] ds[m]).status == DecisionStatus::Active implies exists|k: int|
            0 <= k < l.len() && normalized((#[trigger] l[k]).content@) == normalized(ds[m].content@) by {
        if m < n {
            assert(p[m] == ds[m]);
            let k = choose|k: int|
                0 <= k < reps.len() && normalized((#[trigger] reps[k]).content@) == normalized(
                    p[m].content@,
                );
            assert(normalized(l[k].content@) == normalized(reps[k].content@));
        } else if j < 0 {
            assert(l[reps.len() as int] == d);
        } else {
            assert(normalized(l[j].content@) == key);
        }
    }
}

/// For each text, the active list holds a decision not older than any other active
/// decision with that text.
#[verifier::spinoff_prover]
pub proof fn law_active_latest(ds: Seq<DecisionView>)
    ensures
        forall|m: int, k: int|
            0 <= m < ds.len() && (#[trigger] ds[m]).status == DecisionStatus::Active && 0 <= k
                < latest_active_by_content(ds).len() && normalized(
                (#[trigger] latest_active_by_content(ds)[k]).content@,
            ) == normalized(ds[m].content@) ==> !models::earlier(
                latest_active_by_content(ds)[k].created_at,
                ds[m].created_at,
            ),
    decreases ds.len(),
{
    let l = latest_active_by_content(ds);
    if ds.len() == 0 {
        return;
    }
    let p = ds.drop_last();
    law_active_latest(p);
    law_active_distinct(p);
    law_active_covers(p);
    let reps = latest_active_by_content(p);
    let d = ds.last();
    let n = ds.len() - 1;
    assert(d == ds[n]);
    if d.status != DecisionStatus::Active {
        assert forall|m: int, k: int|
            0 <= m < ds.len() && (#[trigger] ds[m]).status == DecisionStatus::Active && 0 <= k < l.len()
                && normalized((#[trigger] l[k]).content@) == normalized(ds[m].content@) implies !models::earlier(
                l[k].created_at,
                ds[m].created_at,
            ) by {
            assert(p[m] == ds[m]);
        }
        return;
    }
    let key = normalized(d.content@);
    let j = key_index(reps, key);
    lemma_key_index_range(reps, key);
    if j < 0 {
        lemma_no_key(reps, key);
        assert forall|m: int, k: int|
            0 <= m < ds.len() && (#[trigger] ds[m]).status == DecisionStatus::Active && 0 <= k < l.len()
                && normalized((#[trigger] l[k]).content@) == normalized(ds[m].content@) implies !models::earlier(
                l[k].created_at,
                ds[m].created_at,
            ) by {
            if k < reps.len() {
                assert(l[k] == reps[k]);
                if m < n {
                    assert(p[m] == ds[m]);
                }
            } else {
                assert(l[k] == d);
                if m < n {
                    assert(p[m] == ds[m]);
                    let k2 = choose|k2: int|
                        0 <= k2 < reps.len() && normalized((#[trigger] reps[k2]).content@) == normalized(
                            p[m].content@,
                        );
                    assert(normalized(reps[k2].content@) != key);
                }
            }
        }
    } else if models::earlier(reps[j].created_at, d.created_at) {
        assert(normalized(reps[j].content@) == key);
        assert forall|m: int, k: int|
            0 <= m < ds.len() && (#[trigger] ds[m]).status == DecisionStatus::Active && 0 <= k < l.len()
                && normalized((#[trigger] l[k]).content@) == normalized(ds[m].content@) implies !models::earlier(
                l[k].created_at,
                ds[m].created_at,
            ) by {
            if k != j {
                assert(l[k] == reps[k]);
                if m < n {
                    assert(p[m] == ds[m]);
                } else {
                    assert(normalized(reps[k].content@) == normalized(reps[j].content@));
                    assert(k < j || j < k);
                }
            } else {
                assert(l[j] == d);
                if m < n {
                    assert(p[m] == ds[m]);
                    assert(!models::earlier(reps[j].created_at, p[m].created_at));
                }
            }
        }
    } else {
        assert(normalized(reps[j].content@) == key);
        assert forall|m: int, k: int|
            0 <= m < ds.len() && (#[trigger] ds[m]).status == DecisionStatus::Active && 0 <= k < l.len()
                && normalized((#[trigger] l[k]).content@) == normalized(ds[m].content@) implies !models::earlier(
                l[k].created_at,
                ds[m].created_at,
            ) by {
            if m < n {
                assert(p[m] == ds[m]);
            } else if k != j {
                assert(normalized(reps[k].content@) == normalized(reps[j].content@));
                assert(k < j || j < k);
            }
        }
    }
}


/// Superseding replaces a decision. When `pre` first matches the id of the decision at
/// `i`, the store's ids are distinct, the new id is not among them and the new decision
/// is created after every stored one: recording with `supersedes = pre` succeeds, marks
/// exactly that decision superseded and appends the new one, and the active list then
/// holds the new decision and nothing with the superseded id.
pub proof fn law_supersede(
    ds: Seq<DecisionView>,
    ds2: Seq<DecisionView>,
    r: Result<Recorded, NexusError>,
    id: u128,
    content: String,
    rationale: Option<String>,
    tags: Seq<String>,
    author: Option<String>,
    now: Timestamp,
    pre: Seq<char>,
    i: int,
)
    requires
        record_outcome(
            ds,
            ds2,
            r,
            fresh_decision(id, content, rationale, tags, author, now),
            Some(pre),
            normalized(content@),
        ),
        is_first_id_match(ds, pre, i),
        forall|a: int, b: int| 0 <= a < b < ds.len() ==> (#[trigger] ds[a]).id != (#[trigger] ds[b]).id,
        forall|a: int| 0 <= a < ds.len() ==> (#[trigger] ds[a]).id != id,
        forall|a: int| 0 <= a < ds.len() ==> models::earlier((#[trigger] ds[a]).created_at, now),
    ensures
        r matches Ok(rec) && rec.created && rec.superseded == Some(ds[i].id),
        ds2 == ds.update(i, with_status(ds[i], DecisionStatus::Superseded)).push(
            fresh_decision(id, content, rationale, tags, author, now),
        ),
        latest_active_by_content(ds2).contains(fresh_decision(id, content, rationale, tags, author, now)),
        forall|k: int|
            0 <= k < latest_active_by_content(ds2).len() ==> (#[trigger] latest_active_by_content(
                ds2,
            )[k]).id != ds[i].id,
{
    let fresh = fresh_decision(id, content, rationale, tags, author, now);
    assert(exists|k: int| is_first_id_match(ds, pre, k));
    let i2 = choose|k: int|
        #![trigger is_first_id_match(ds, pre, k)]
        {
            &&& is_first_id_match(ds, pre, k)
            &&& ds2 == ds.update(k, with_status(ds[k], DecisionStatus::Superseded)).push(fresh)
            &&& r matches Ok(rec)
            &&& rec.created
            &&& rec.superseded == Some(ds[k].id)
            &&& rec.decision@ == fresh
        };
    if i2 < i {
        assert(!id_matches(ds[i2], pre));
    } else if i < i2 {
        assert(!id_matches(ds[i], pre));
    }
    assert(i2 == i);
    let mid = ds.update(i, with_status(ds[i], DecisionStatus::Superseded));
    assert(ds2.drop_last() =~= mid);
    assert(ds2.last() == fresh);
    law_active_entries(ds2);
    let l2 = latest_active_by_content(ds2);
    assert forall|k: int| 0 <= k < l2.len() implies (#[trigger] l2[k]).id != ds[i].id by {
        assert(ds2.contains(l2[k]));
        let m = choose|m: int| 0 <= m < ds2.len() && ds2[m] == l2[k];
        if m == i {
            assert(ds2[m].status == DecisionStatus::Superseded);
        } else if m < ds.len() {
            assert(ds2[m] == ds[m]);
        } else {
            assert(ds2[m] == fresh);
        }
    }
    law_active_entries(mid);
    let reps = latest_active_by_content(mid);
    let key = normalized(fresh.content@);
    let j = key_index(reps, key);
    lemma_key_index_range(reps, key);
    if j >= 0 {
        assert(mid.contains(reps[j]));
        let m = choose|m: int| 0 <= m < mid.len() && mid[m] == reps[j];
        assert(mid[m].created_at == ds[m].created_at);
        assert(models::earlier(reps[j].created_at, now));
        assert(l2 == reps.update(j, fresh));
        assert(l2[j] == fresh);
    } else {
        assert(l2 == reps.push(fresh));
        assert(l2[reps.len() as int] == fresh);
    }
}


/// Superseding an id that no decision has fails with `UnknownDecision` and leaves the
/// store as it was.
pub proof fn law_supersede_unknown(
    ds: Seq<DecisionView>,
    ds2: Seq<DecisionView>,
    r: Result<Recorded, NexusError>,
    fresh: DecisionView,
    pre: Seq<char>,
    key: Seq<char>,
)
    requires
        record_outcome(ds, ds2, r, fresh, Some(pre), key),
        forall|j: int| 0 <= j < ds.len() ==> !id_matches(#[trigger] ds[j], pre),
    ensures
        ds2 == ds,
        r matches Err(NexusError::UnknownDecision(p)) && p@ == pre,
{
    assert(!exists|i: int| is_first_id_match(ds, pre, i));
}

proof fn lemma_first_same_active_exists(ds: Seq<DecisionView>, key: Seq<char>, j: int)
    requires
        0 <= j < ds.len(),
        same_active(ds[j], key),
    ensures
        exists|f: int| is_first_same_active(ds, key, f),
    decreases j,
{
    if exists|k: int| 0 <= k < j && same_active(#[trigger] ds[k], key) {
        let k = choose|k: int| 0 <= k < j && same_active(#[trigger] ds[k], key);
        lemma_first_same_active_exists(ds, key, k);
    } else {
        assert(is_first_same_active(ds, key, j));
    }
}

/// Recording is idempotent: right after a decision is recorded (without superseding),
/// recording one that says the same thing once trimmed and lower-cased adds nothing and
/// returns the standing decision.
pub proof fn law_record_idempotent(
    ds: Seq<DecisionView>,
    ds2: Seq<DecisionView>,
    ds3: Seq<DecisionView>,
    r1: Result<Recorded, NexusError>,
    r2: Result<Recorded, NexusError>,
    first: DecisionView,
    second: DecisionView,
)
    requires
        first.status == DecisionStatus::Active,
        normalized(second.content@) == normalized(first.content@),
        record_outcome(ds, ds2, r1, first, None, normalized(first.content@)),
        record_outcome(ds2, ds3, r2, second, None, normalized(second.content@)),
    ensures
        ds3 == ds2,
        r2 matches Ok(rec) && !rec.created,
{
    let key = normalized(first.content@);
    if exists|j: int| is_first_same_active(ds, key, j) {
        let j = choose|j: int| is_first_same_active(ds, key, j);
        assert(ds2 == ds);
        lemma_first_same_active_exists(ds2, key, j);
    } else {
        assert(ds2 == ds.push(first));
        assert(same_active(ds2[ds.len() as int], key));
        lemma_first_same_active_exists(ds2, key, ds.len() as int);
    }
}


/// Recording keeps the history: no decision is removed or rewritten, at most one new
/// decision is appended, and the only change to a stored one is being marked superseded.
pub proof fn law_record_keeps_history(
    ds: Seq<DecisionView>,
    ds2: Seq<DecisionView>,
    r: Result<Recorded, NexusError>,
    fresh: DecisionView,
    prefix: Option<Seq<char>>,
    key: Seq<char>,
)
    requires
        record_outcome(ds, ds2, r, fresh, prefix, key),
    ensures
        ds2.len() == ds.len() || ds2.len() == ds.len() + 1,
        ds2.len() == ds.len() + 1 ==> ds2.last() == fresh,
        forall|k: int|
            0 <= k < ds.len() ==> (#[trigger] ds2[k] == ds[k] || ds2[k] == with_status(
                ds[k],
                DecisionStatus::Superseded,
            )),
{
    match prefix {
        Some(pre) => {
            if exists|i: int| is_first_id_match(ds, pre, i) {
                let i = choose|i: int|
                    #![trigger is_first_id_match(ds, pre, i)]
                    {
                        &&& is_first_id_match(ds, pre, i)
                        &&& ds2 == ds.update(i, with_status(ds[i], DecisionStatus::Superseded)).push(fresh)
                        &&& r matches Ok(rec)
                        &&& rec.created
                        &&& rec.superseded == Some(ds[i].id)
                        &&& rec.decision@ == fresh
                    };
                assert forall|k: int| 0 <= k < ds.len() implies (#[trigger] ds2[k] == ds[k] || ds2[k]
                    == with_status(ds[k], DecisionStatus::Superseded)) by {
                    if k == i {
                        assert(ds2[k] == with_status(ds[k], DecisionStatus::Superseded));
                    } else {
                        assert(ds2[k] == ds[k]);
                    }
                }
            }
        },
        None => {},
    }
}

} // verus!
