use vstd::prelude::*;
use crate::config::{AppConfig, TableConfig, TableSource};
use crate::extract::{extract, extract_bytes_spec, json_document, DocumentModel, ExtractError};
use crate::refresh::{
    backoff_delay_spec, clone_rows, decide_spec, doubling, error_text, INITIAL_BACKOFF_MS, RETRY_THRESHOLD, extract_error_text, failure_spec, fresh_record_spec,
    same_record, success_spec, FetchError, RefreshRecord, TickDecision,
};

verus! {

/// The runtime state of one table: its record, and whether a fetch for it
/// is under way.
pub struct TableState {
    pub record: RefreshRecord,
    pub in_flight: bool,
}

/// A fetch handed out by a tick: which table, and the descriptor it was
/// begun under.
pub struct FetchRequest {
    pub id: String,
    pub source: TableSource,
}

/// The configuration in use and one state per table, in the same grid.
pub struct TableRegistry {
    pub config: AppConfig,
    pub states: Vec<Vec<TableState>>,
}

/// What a fetch yields, from the bytes read (or the failure to read them).
pub open spec fn fetch_result_spec(source: TableSource, raw: Result<Seq<u8>, FetchError>) -> Result<Seq<Seq<Seq<char>>>, FetchError> {
    match source {
        TableSource::Static { data } => Ok(data.deep_view()),
        _ => fetched_rows_spec(raw, source.mapping_view()),
    }
}

/// The rows from bytes read for a file or a URL: no mapping is an error
/// whatever was read; then a read failure; then what extraction gives.
pub open spec fn fetched_rows_spec(raw: Result<Seq<u8>, FetchError>, mapping: Option<Seq<Seq<char>>>) -> Result<Seq<Seq<Seq<char>>>, FetchError> {
    match mapping {
        None => Err(FetchError::Extract(ExtractError::NoMapping)),
        Some(_) => match raw {
            Err(e) => Err(e),
            Ok(b) => match extract_bytes_spec(b, mapping) {
                Ok(rows) => Ok(rows),
                Err(x) => Err(FetchError::Extract(x)),
            },
        },
    }
}

pub open spec fn raw_view(raw: Result<Vec<u8>, FetchError>) -> Result<Seq<u8>, FetchError> {
    match raw {
        Ok(b) => Ok(b@),
        Err(e) => Err(e),
    }
}

pub open spec fn fetch_view(r: Result<Vec<Vec<String>>, FetchError>) -> Result<Seq<Seq<Seq<char>>>, FetchError> {
    match r {
        Ok(rows) => Ok(rows.deep_view()),
        Err(e) => Err(e),
    }
}

/// The rows of a source: static data as given; for a file or a URL, the
/// rows extracted from the bytes read, or the failure.
pub fn fetch_rows(source: &TableSource, raw: Result<Vec<u8>, FetchError>) -> (r: Result<Vec<Vec<String>>, FetchError>)
    ensures
        fetch_view(r) == fetch_result_spec(*source, raw_view(raw)),
{
    let mapping = match source {
        TableSource::Static { data } => return Ok(clone_rows(data)),
        TableSource::File { mapping, .. } => mapping,
        TableSource::Remote { mapping, .. } => mapping,
    };
    if mapping.is_none() {
        return Err(FetchError::Extract(ExtractError::NoMapping));
    }
    match raw {
        Err(e) => Err(e),
        Ok(bytes) => match extract(bytes.as_slice(), mapping) {
            Ok(rows) => Ok(rows),
            Err(x) => Err(FetchError::Extract(x)),
        },
    }
}

/// The table at (i, j) has this identity.
pub open spec fn has_id(tables: Seq<Vec<TableConfig>>, i: int, j: int, id: Seq<char>) -> bool {
    0 <= i < tables.len() && 0 <= j < tables[i]@.len() && tables[i]@[j].id@ == id
}

/// (i, j) comes before (a, b) in reading order.
pub open spec fn before(i: int, j: int, a: int, b: int) -> bool {
    i < a || (i == a && j < b)
}

/// (i, j) is the first table in reading order with this identity.
pub open spec fn first_with_id(tables: Seq<Vec<TableConfig>>, i: int, j: int, id: Seq<char>) -> bool {
    &&& has_id(tables, i, j, id)
    &&& forall|a: int, b: int| #[trigger] has_id(tables, a, b, id) ==> !before(a, b, i, j)
}

pub open spec fn absent_id(tables: Seq<Vec<TableConfig>>, id: Seq<char>) -> bool {
    forall|a: int, b: int| !#[trigger] has_id(tables, a, b, id)
}

/// The state that a reload gives the table `t`: the old table of the same
/// identity's record where both fetch the same target, else a fresh one. A
/// fetch under way stays marked only where the mapping is unchanged too, so
/// that its result will still be taken; otherwise that result is stale and
/// the table may be fetched anew.
pub open spec fn reloaded_state(old: TableRegistry, t: TableConfig, s: TableState) -> bool {
    let tables = old.config.tables@;
    if exists|a: int, b: int| first_with_id(tables, a, b, t.id@) && t.source.same_target_spec(&tables[a]@[b].source) {
        exists|a: int, b: int| {
            &&& first_with_id(tables, a, b, t.id@)
            &&& same_record(s.record, old.states@[a]@[b].record)
            &&& s.in_flight == (old.states@[a]@[b].in_flight && t.source.same_fetch_spec(&tables[a]@[b].source))
        }
    } else {
        fresh_record_spec(t.source, s.record) && !s.in_flight
    }
}

/// What one tick does to one table's state.
pub open spec fn tick_state_spec(source: TableSource, old: TableState, now: u64, new: TableState) -> bool {
    if old.in_flight {
        new == old
    } else {
        match decide_spec(source, old.record, now) {
            TickDecision::Idle => new == old,
            TickDecision::ConfigError => {
                &&& !new.in_flight
                &&& new.record.cached_rows == old.record.cached_rows
                &&& new.record.consecutive_failures == old.record.consecutive_failures
                &&& new.record.backoff_until == old.record.backoff_until
                &&& new.record.last_attempt_at == old.record.last_attempt_at
                &&& new.record.last_error is Some
                &&& new.record.last_error->0@ == extract_error_text(ExtractError::NoMapping)
            },
            TickDecision::Fetch => new.in_flight && new.record == old.record,
        }
    }
}

/// The request was handed out for a table that was due, under its
/// identity and descriptor.
pub open spec fn request_for(reg: TableRegistry, req: FetchRequest, now: u64) -> bool {
    exists|a: int, b: int| {
        &&& #[trigger] reg.valid_pos(a, b)
        &&& starts_fetch(reg.table(a, b).source, reg.state(a, b), now)
        &&& req.id@ == reg.table(a, b).id@
        &&& req.source.same_fetch_spec(&reg.table(a, b).source)
    }
}

pub open spec fn starts_fetch(source: TableSource, s: TableState, now: u64) -> bool {
    !s.in_flight && decide_spec(source, s.record, now) == TickDecision::Fetch
}

impl TableRegistry {
    /// One state per table, in the configuration's grid.
    pub open spec fn wf(&self) -> bool {
        &&& self.states@.len() == self.config.tables@.len()
        &&& forall|i: int| 0 <= i < self.states@.len() ==> #[trigger] self.states@[i]@.len() == self.config.tables@[i]@.len()
    }

    pub open spec fn table(&self, i: int, j: int) -> TableConfig {
        self.config.tables@[i]@[j]
    }

    pub open spec fn state(&self, i: int, j: int) -> TableState {
        self.states@[i]@[j]
    }

    pub open spec fn valid_pos(&self, i: int, j: int) -> bool {
        0 <= i < self.states@.len() && 0 <= j < self.states@[i]@.len()
    }

    /// The first table in reading order with this identity.
    pub fn find(&self, id: &String) -> (r: Option<(usize, usize)>)
        requires
            self.wf(),
        ensures
            r matches Some(p) ==> first_with_id(self.config.tables@, p.0 as int, p.1 as int, id@),
            r is None ==> absent_id(self.config.tables@, id@),
    {
        let tables = &self.config.tables;
        let mut i: usize = 0;
        while i < tables.len()
            invariant
                i <= tables@.len(),
                tables@ == self.config.tables@,
                forall|a: int, b: int| a < i ==> !#[trigger] has_id(tables@, a, b, id@),
            decreases tables.len() - i,
        {
            let mut j: usize = 0;
            while j < tables[i].len()
                invariant
                    i < tables@.len(),
                    tables@ == self.config.tables@,
                    j <= tables@[i as int]@.len(),
                    forall|a: int, b: int| a < i ==> !#[trigger] has_id(tables@, a, b, id@),
                    forall|b: int| b < j ==> !#[trigger] has_id(tables@, i as int, b, id@),
                decreases tables@[i as int]@.len() - j,
            {
                if tables[i][j].id == *id {
                    assert(has_id(tables@, i as int, j as int, id@));
                    assert forall|a: int, b: int| #[trigger] has_id(tables@, a, b, id@) implies !before(a, b, i as int, j as int) by {
                        if a < i {
                        } else if a == i && b < j {
                        }
                    }
                    return Some((i, j));
                }
                j += 1;
            }
            assert forall|a: int, b: int| a < i + 1 implies !#[trigger] has_id(tables@, a, b, id@) by {
                if a == i && has_id(tables@, a, b, id@) {
                    assert(b < j);
                }
            }
            i += 1;
        }
        None
    }

    /// A registry for a configuration, with a fresh record per table.
    pub fn new(config: AppConfig) -> (r: TableRegistry)
        ensures
            r.wf(),
            r.config == config,
            forall|i: int, j: int| #[trigger] r.valid_pos(i, j) ==> {
                &&& fresh_record_spec(r.table(i, j).source, r.state(i, j).record)
                &&& !r.state(i, j).in_flight
            },
    {
        let mut states: Vec<Vec<TableState>> = Vec::new();
        let mut i: usize = 0;
        while i < config.tables.len()
            invariant
                i <= config.tables@.len(),
                states@.len() == i,
                forall|a: int| 0 <= a < i ==> #[trigger] states@[a]@.len() == config.tables@[a]@.len(),
                forall|a: int, b: int| 0 <= a < i && 0 <= b < states@[a]@.len() ==> {
                    &&& fresh_record_spec(config.tables@[a]@[b].source, #[trigger] states@[a]@[b].record)
                    &&& !states@[a]@[b].in_flight
                },
            decreases config.tables.len() - i,
        {
            let mut row: Vec<TableState> = Vec::new();
            let mut j: usize = 0;
            while j < config.tables[i].len()
                invariant
                    i < config.tables@.len(),
                    j <= config.tables@[i as int]@.len(),
                    row@.len() == j,
                    forall|b: int| 0 <= b < j ==> {
                        &&& fresh_record_spec(config.tables@[i as int]@[b].source, #[trigger] row@[b].record)
                        &&& !row@[b].in_flight
                    },
                decreases config.tables@[i as int]@.len() - j,
            {
                let record = RefreshRecord::new(&config.tables[i][j].source);
                row.push(TableState { record, in_flight: false });
                j += 1;
            }
            states.push(row);
            i += 1;
        }
        TableRegistry { config, states }
    }

    /// The registry for a new configuration. A table whose identity was
    /// there before and still fetches the same target keeps its record; any
    /// other starts afresh. Tables that left are dropped.
    pub fn reload(&self, config: AppConfig) -> (r: TableRegistry)
        requires
            self.wf(),
        ensures
            r.wf(),
            r.config == config,
            forall|i: int, j: int| #[trigger] r.valid_pos(i, j) ==> reloaded_state(*self, r.table(i, j), r.state(i, j)),
    {
        let mut states: Vec<Vec<TableState>> = Vec::new();
        let mut i: usize = 0;
        while i < config.tables.len()
            invariant
                self.wf(),
                i <= config.tables@.len(),
                states@.len() == i,
                forall|a: int| 0 <= a < i ==> #[trigger] states@[a]@.len() == config.tables@[a]@.len(),
                forall|a: int, b: int| 0 <= a < i && 0 <= b < states@[a]@.len() ==>
                    reloaded_state(*self, config.tables@[a]@[b], #[trigger] states@[a]@[b]),
            decreases config.tables.len() - i,
        {
            let mut row: Vec<TableState> = Vec::new();
            let mut j: usize = 0;
            while j < config.tables[i].len()
                invariant
                    self.wf(),
                    i < config.tables@.len(),
                    j <= config.tables@[i as int]@.len(),
                    row@.len() == j,
                    forall|b: int| 0 <= b < j ==> reloaded_state(*self, config.tables@[i as int]@[b], #[trigger] row@[b]),
                decreases config.tables@[i as int]@.len() - j,
            {
                let state = self.carried_state(&config.tables[i][j]);
                row.push(state);
                j += 1;
            }
            states.push(row);
            i += 1;
        }
        TableRegistry { config, states }
    }

    fn carried_state(&self, t: &TableConfig) -> (s: TableState)
        requires
            self.wf(),
        ensures
            reloaded_state(*self, *t, s),
    {
        let tables = &self.config.tables;
        match self.find(&t.id) {
            Some((a, b)) => {
                if t.source.same_target(&tables[a][b].source) {
                    let old = &self.states[a][b];
                    let pending = old.in_flight && t.source.same_fetch(&tables[a][b].source);
                    let s = TableState { record: old.record.duplicate(), in_flight: pending };
                    assert(first_with_id(tables@, a as int, b as int, t.id@));
                    return s;
                }
                proof {
                    assert forall|x: int, y: int| first_with_id(tables@, x, y, t.id@) implies x == a && y == b by {
                        assert(has_id(tables@, a as int, b as int, t.id@));
                        assert(has_id(tables@, x, y, t.id@));
                    }
                }
            },
            None => {},
        }
        TableState { record: RefreshRecord::new(&t.source), in_flight: false }
    }

    /// One scheduling tick: each table that is due and has no fetch under
    /// way is marked in flight and handed out as a request; a table without
    /// a mapping shows its configuration error; every other table is left
    /// as it is. Each table's step depends on that table alone.
    pub fn begin_tick(&mut self, now: u64) -> (r: Vec<FetchRequest>)
        requires
            old(self).wf(),
        ensures
            final(self).wf(),
            final(self).config == old(self).config,
            forall|i: int, j: int| #[trigger] old(self).valid_pos(i, j) ==> tick_state_spec(
                old(self).table(i, j).source,
                old(self).state(i, j),
                now,
                final(self).state(i, j),
            ),
            forall|k: int| 0 <= k < r@.len() ==> #[trigger] request_for(*old(self), r@[k], now),
            forall|i: int, j: int| #[trigger] old(self).valid_pos(i, j) && starts_fetch(old(self).table(i, j).source, old(self).state(i, j), now)
                ==> exists|k: int| 0 <= k < r@.len() && #[trigger] r@[k].id@ == old(self).table(i, j).id@,
    {
        let ghost pre = *self;
        let mut requests: Vec<FetchRequest> = Vec::new();
        let mut i: usize = 0;
        while i < self.states.len()
            invariant
                pre.wf(),
                self.wf(),
                self.config == pre.config,
                self.states@.len() == pre.states@.len(),
                i <= self.states@.len(),
                forall|a: int, b: int| #[trigger] pre.valid_pos(a, b) ==> if a < i {
                    tick_state_spec(pre.table(a, b).source, pre.state(a, b), now, self.state(a, b))
                } else {
                    self.state(a, b) == pre.state(a, b)
                },
                forall|k: int| 0 <= k < requests@.len() ==> #[trigger] request_for(pre, requests@[k], now),
                forall|a: int, b: int| #[trigger] pre.valid_pos(a, b) && a < i && starts_fetch(pre.table(a, b).source, pre.state(a, b), now)
                    ==> exists|k: int| 0 <= k < requests@.len() && #[trigger] requests@[k].id@ == pre.table(a, b).id@,
            decreases pre.states@.len() - i,
        {
            let mut j: usize = 0;
            while j < self.states[i].len()
                invariant
                    pre.wf(),
                    self.wf(),
                    self.config == pre.config,
                    self.states@.len() == pre.states@.len(),
                    i < self.states@.len(),
                    j <= self.states@[i as int]@.len(),
                    forall|a: int, b: int| #[trigger] pre.valid_pos(a, b) ==> if a < i || (a == i && b < j) {
                        tick_state_spec(pre.table(a, b).source, pre.state(a, b), now, self.state(a, b))
                    } else {
                        self.state(a, b) == pre.state(a, b)
                    },
                    forall|k: int| 0 <= k < requests@.len() ==> #[trigger] request_for(pre, requests@[k], now),
                    forall|a: int, b: int| #[trigger] pre.valid_pos(a, b) && (a < i || (a == i && b < j)) && starts_fetch(pre.table(a, b).source, pre.state(a, b), now)
                        ==> exists|k: int| 0 <= k < requests@.len() && #[trigger] requests@[k].id@ == pre.table(a, b).id@,
                decreases pre.states@[i as int]@.len() - j,
            {
                assert(pre.valid_pos(i as int, j as int));
                let ghost reqs_before = requests@;
                if !self.states[i][j].in_flight {
                    let table = &self.config.tables[i][j];
                    let decision = self.states[i][j].record.decide(&table.source, now);
                    match decision {
                        TickDecision::Idle => {},
                        TickDecision::ConfigError => {
                            self.states[i][j].record.record_config_error();
                        },
                        TickDecision::Fetch => {
                            let req = FetchRequest { id: table.id.clone(), source: table.source.duplicate() };
                            self.states[i][j].in_flight = true;
                            requests.push(req);
                            assert(requests@[requests@.len() - 1].id@ == pre.table(i as int, j as int).id@);
                            assert(request_for(pre, requests@[requests@.len() - 1], now));
                        },
                    }
                }
                proof {
                    assert forall|a: int, b: int| #[trigger] pre.valid_pos(a, b) && (a < i || (a == i && b <= j)) && starts_fetch(pre.table(a, b).source, pre.state(a, b), now)
                        implies exists|k: int| 0 <= k < requests@.len() && #[trigger] requests@[k].id@ == pre.table(a, b).id@ by {
                        if a == i && b == j {
                            assert(requests@[requests@.len() - 1].id@ == pre.table(a, b).id@);
                        } else {
                            let k = choose|k: int| 0 <= k < reqs_before.len() && #[trigger] reqs_before[k].id@ == pre.table(a, b).id@;
                            assert(requests@[k] == reqs_before[k]);
                        }
                    }
                }
                j += 1;
            }
            i += 1;
        }
        requests
    }

    /// Writes back the outcome of a fetch. It is applied only where the
    /// table is still there under the same identity, is waiting for this
    /// fetch, and still fetches the same target with the same mapping;
    /// otherwise the result is stale and the registry is left unchanged.
    /// Only that one table changes.
    pub fn complete_fetch(&mut self, request: &FetchRequest, raw: Result<Vec<u8>, FetchError>, now: u64) -> (applied: bool)
        requires
            old(self).wf(),
        ensures
            final(self).wf(),
            final(self).config == old(self).config,
            !applied ==> *final(self) == *old(self),
            (exists|i: int, j: int| {
                &&& #[trigger] first_with_id(old(self).config.tables@, i, j, request.id@)
                &&& old(self).state(i, j).in_flight
                &&& old(self).table(i, j).source.same_fetch_spec(&request.source)
            }) ==> applied,
            applied ==> exists|i: int, j: int| {
                &&& first_with_id(old(self).config.tables@, i, j, request.id@)
                &&& old(self).state(i, j).in_flight
                &&& old(self).table(i, j).source.same_fetch_spec(&request.source)
                &&& !final(self).state(i, j).in_flight
                &&& match fetch_result_spec(old(self).table(i, j).source, raw_view(raw)) {
                    Ok(rows) => success_spec(rows, now, final(self).state(i, j).record),
                    Err(e) => failure_spec(old(self).state(i, j).record, error_text(e), now, final(self).state(i, j).record),
                }
                &&& forall|a: int, b: int| #[trigger] old(self).valid_pos(a, b) && (a != i || b != j) ==> final(self).state(a, b) == old(self).state(a, b)
            },
    {
        let pos = self.find(&request.id);
        let (i, j) = match pos {
            None => return false,
            Some(p) => p,
        };
        proof {
            assert forall|x: int, y: int| first_with_id(self.config.tables@, x, y, request.id@) implies x == i && y == j by {
                assert(has_id(self.config.tables@, i as int, j as int, request.id@));
                assert(has_id(self.config.tables@, x, y, request.id@));
            }
        }
        if !self.states[i][j].in_flight || !self.config.tables[i][j].source.same_fetch(&request.source) {
            return false;
        }
        let outcome = fetch_rows(&self.config.tables[i][j].source, raw);
        self.states[i][j].record.apply(outcome, now);
        self.states[i][j].in_flight = false;
        true
    }
}

/// A reload that keeps a table's identity and target keeps its record: the
/// cached rows, the failure count and the backoff carry over.
pub proof fn reload_keeps_record(old: TableRegistry, new: TableRegistry, i: int, j: int, a: int, b: int)
    requires
        old.wf(),
        new.wf(),
        new.valid_pos(i, j),
        reloaded_state(old, new.table(i, j), new.state(i, j)),
        first_with_id(old.config.tables@, a, b, new.table(i, j).id@),
        new.table(i, j).source.same_target_spec(&old.table(a, b).source),
    ensures
        new.state(i, j).record.cached_rows.deep_view() == old.state(a, b).record.cached_rows.deep_view(),
        new.state(i, j).record.consecutive_failures == old.state(a, b).record.consecutive_failures,
        new.state(i, j).record.backoff_until == old.state(a, b).record.backoff_until,
        new.state(i, j).record.last_error.deep_view() == old.state(a, b).record.last_error.deep_view(),
{
    let id = new.table(i, j).id@;
    let tables = old.config.tables@;
    let (x, y) = choose|x: int, y: int| {
        &&& first_with_id(tables, x, y, id)
        &&& same_record(new.state(i, j).record, old.states@[x]@[y].record)
        &&& new.state(i, j).in_flight == (old.states@[x]@[y].in_flight && new.table(i, j).source.same_fetch_spec(&tables[x]@[y].source))
    };
    assert(has_id(tables, x, y, id));
    assert(has_id(tables, a, b, id));
}

/// A reload that changes a table's target (or its kind) starts it afresh:
/// no failures, no backoff, no error, never fetched.
pub proof fn reload_resets_changed(old: TableRegistry, new: TableRegistry, i: int, j: int)
    requires
        old.wf(),
        new.valid_pos(i, j),
        reloaded_state(old, new.table(i, j), new.state(i, j)),
        forall|a: int, b: int| #[trigger] first_with_id(old.config.tables@, a, b, new.table(i, j).id@)
            ==> !new.table(i, j).source.same_target_spec(&old.table(a, b).source),
    ensures
        fresh_record_spec(new.table(i, j).source, new.state(i, j).record),
        !new.state(i, j).in_flight,
        new.state(i, j).record.consecutive_failures == 0,
        new.state(i, j).record.backoff_until is None,
        new.state(i, j).record.last_attempt_at is None,
{
}

/// After a reload a table is still marked as waiting for a fetch only where
/// the old table under its identity was, and fetches the same target with the
/// same mapping, so that the pending result is taken when it comes back.
pub proof fn reload_keeps_pending_only_if_same_fetch(old: TableRegistry, new: TableRegistry, i: int, j: int)
    requires
        old.wf(),
        new.valid_pos(i, j),
        reloaded_state(old, new.table(i, j), new.state(i, j)),
        new.state(i, j).in_flight,
    ensures
        exists|a: int, b: int| {
            &&& first_with_id(old.config.tables@, a, b, new.table(i, j).id@)
            &&& old.state(a, b).in_flight
            &&& new.table(i, j).source.same_fetch_spec(&old.table(a, b).source)
        },
{
}

/// Bytes that are JSON but not an array make the refresh of a mapped file or
/// URL fail with `NotAnArray`: the rows stay, that error is shown, and one
/// more failure is counted.
pub proof fn not_an_array_refresh_fails(source: TableSource, b: Seq<u8>, old: RefreshRecord, now: u64, new: RefreshRecord)
    requires
        !source.is_static(),
        source.mapping_view() is Some,
        json_document(b) == Some(DocumentModel::Other),
        match fetch_result_spec(source, Ok(b)) {
            Ok(rows) => success_spec(rows, now, new),
            Err(e) => failure_spec(old, error_text(e), now, new),
        },
        old.consecutive_failures < u64::MAX,
    ensures
        fetch_result_spec(source, Ok(b)) == Err::<Seq<Seq<Seq<char>>>, FetchError>(FetchError::Extract(ExtractError::NotAnArray)),
        new.cached_rows == old.cached_rows,
        new.last_error is Some,
        new.last_error->0@ == extract_error_text(ExtractError::NotAnArray),
        new.consecutive_failures == old.consecutive_failures + 1,
        new.last_attempt_at == Some(now),
{
}

/// The k-th failure in a row, from the threshold on, backs off for
/// 5 s times 2^(k - 3) from now; below the threshold nothing is backed off.
pub proof fn failure_backoff(old: RefreshRecord, message: Seq<char>, now: u64, new: RefreshRecord)
    requires
        failure_spec(old, message, now, new),
        old.consecutive_failures < u64::MAX,
        now + backoff_delay_spec((old.consecutive_failures + 1) as nat) <= u64::MAX,
    ensures
        old.consecutive_failures + 1 >= RETRY_THRESHOLD ==> new.backoff_until == Some(
            (now + INITIAL_BACKOFF_MS * doubling((old.consecutive_failures + 1 - RETRY_THRESHOLD) as nat)) as u64,
        ),
        old.consecutive_failures + 1 < RETRY_THRESHOLD ==> new.backoff_until is None,
{
}

} // verus!
