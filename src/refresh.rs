use vstd::prelude::*;
use crate::config::TableSource;
use crate::extract::ExtractError;

verus! {

/// Failures in a row that are retried at once, before backoff starts.
pub const RETRY_THRESHOLD: u64 = 3;

/// The first backoff delay, in milliseconds.
pub const INITIAL_BACKOFF_MS: u64 = 5000;

/// The runtime state of one table.
pub struct RefreshRecord {
    /// The last rows fetched with success (or a placeholder before that).
    pub cached_rows: Vec<Vec<String>>,
    /// When the last fetch was made; `None` before the first one.
    pub last_attempt_at: Option<u64>,
    /// Failed fetches since the last success.
    pub consecutive_failures: u64,
    /// Before this time no fetch is attempted.
    pub backoff_until: Option<u64>,
    /// The message of the last failure, until a fetch succeeds.
    pub last_error: Option<String>,
}

/// Why a fetch failed.
#[derive(Debug, PartialEq, Eq)]
pub enum FetchError {
    /// The file could not be read.
    Io(String),
    /// The request failed or did not answer with success.
    Network(String),
    /// The bytes did not give rows.
    Extract(ExtractError),
}

/// What the tick handler does for one table.
#[derive(Debug, Clone, Copy, PartialEq, Eq, Structural)]
pub enum TickDecision {
    /// Nothing: static data, backoff, or not yet due.
    Idle,
    /// The source has no mapping: an error that no retry can mend.
    ConfigError,
    /// The table is due: fetch it.
    Fetch,
}

/// 2 to the power `k`.
pub open spec fn doubling(k: nat) -> nat
    decreases k,
{
    if k == 0 {
        1
    } else {
        2 * doubling((k - 1) as nat)
    }
}

/// The backoff after `failures` failures in a row (from the threshold on).
pub open spec fn backoff_delay_spec(failures: nat) -> nat {
    (INITIAL_BACKOFF_MS * doubling((failures - RETRY_THRESHOLD) as nat)) as nat
}

/// A value clamped to what a `u64` holds.
pub open spec fn saturate(x: int) -> u64 {
    if x > u64::MAX {
        u64::MAX
    } else {
        x as u64
    }
}

/// The backoff after `failures` failures in a row, in milliseconds, or
/// `u64::MAX` where it would not fit.
pub fn backoff_delay(failures: u64) -> (r: u64)
    requires
        failures >= RETRY_THRESHOLD,
    ensures
        r == saturate(backoff_delay_spec(failures as nat) as int),
{
    let mut d: u64 = INITIAL_BACKOFF_MS;
    let mut i: u64 = RETRY_THRESHOLD;
    while i < failures
        invariant
            RETRY_THRESHOLD <= i <= failures,
            d == backoff_delay_spec(i as nat),
        decreases failures - i,
    {
        if d > u64::MAX / 2 {
            proof {
                lemma_doubling_grows((i + 1 - RETRY_THRESHOLD) as nat, (failures - RETRY_THRESHOLD) as nat);
                assert(backoff_delay_spec((i + 1) as nat) == 2 * backoff_delay_spec(i as nat));
            }
            return u64::MAX;
        }
        proof {
            assert(doubling((i + 1 - RETRY_THRESHOLD) as nat) == 2 * doubling((i - RETRY_THRESHOLD) as nat));
        }
        d = d * 2;
        i = i + 1;
    }
    d
}

proof fn lemma_doubling_grows(a: nat, b: nat)
    requires
        a <= b,
    ensures
        doubling(a) <= doubling(b),
    decreases b - a,
{
    if a < b {
        lemma_doubling_grows(a, (b - 1) as nat);
    }
}

pub open spec fn saturating_add(a: u64, b: u64) -> u64 {
    saturate(a + b)
}

/// The record of a table that has just appeared: its static rows, or an
/// empty placeholder row for a fetched source.
pub open spec fn fresh_record_spec(source: TableSource, r: RefreshRecord) -> bool {
    &&& r.last_attempt_at is None
    &&& r.consecutive_failures == 0
    &&& r.backoff_until is None
    &&& r.last_error is None
    &&& match source {
        TableSource::Static { data } => r.cached_rows.deep_view() == data.deep_view(),
        _ => r.cached_rows.deep_view() == seq![Seq::<Seq<char>>::empty()],
    }
}

pub open spec fn decide_spec(source: TableSource, r: RefreshRecord, now: u64) -> TickDecision {
    if source.is_static() {
        TickDecision::Idle
    } else if source.mapping_view() is None {
        TickDecision::ConfigError
    } else if r.backoff_until is Some && now < r.backoff_until->0 {
        TickDecision::Idle
    } else if r.last_attempt_at is Some && now - r.last_attempt_at->0 < source.interval() {
        TickDecision::Idle
    } else {
        TickDecision::Fetch
    }
}

/// The text recorded for a failure.
pub open spec fn error_text(e: FetchError) -> Seq<char> {
    match e {
        FetchError::Io(m) => m@,
        FetchError::Network(m) => m@,
        FetchError::Extract(x) => extract_error_text(x),
    }
}

pub open spec fn extract_error_text(e: ExtractError) -> Seq<char> {
    match e {
        ExtractError::NoMapping => "no field mapping"@,
        ExtractError::MalformedJson => "malformed JSON"@,
        ExtractError::NotAnArray => "JSON root is not an array"@,
    }
}

/// The record after a successful fetch of `rows` at `now`.
pub open spec fn success_spec(rows: Seq<Seq<Seq<char>>>, now: u64, new: RefreshRecord) -> bool {
    &&& new.cached_rows.deep_view() == rows
    &&& new.last_attempt_at == Some(now)
    &&& new.consecutive_failures == 0
    &&& new.backoff_until is None
    &&& new.last_error is None
}

/// The record after a failed fetch at `now`: rows kept, one more failure,
/// and from the threshold on a doubling backoff.
pub open spec fn failure_spec(old: RefreshRecord, message: Seq<char>, now: u64, new: RefreshRecord) -> bool {
    let failures = saturate(old.consecutive_failures + 1);
    &&& new.cached_rows == old.cached_rows
    &&& new.last_error is Some && new.last_error->0@ == message
    &&& new.consecutive_failures == failures
    &&& new.last_attempt_at == Some(now)
    &&& new.backoff_until == if failures >= RETRY_THRESHOLD {
        Some(saturating_add(now, saturate(backoff_delay_spec(failures as nat) as int)))
    } else {
        None
    }
}

impl ExtractError {
    pub fn message(&self) -> (r: String)
        ensures
            r@ == extract_error_text(*self),
    {
        match self {
            ExtractError::NoMapping => String::from_str("no field mapping"),
            ExtractError::MalformedJson => String::from_str("malformed JSON"),
            ExtractError::NotAnArray => String::from_str("JSON root is not an array"),
        }
    }
}

impl FetchError {
    pub fn message(&self) -> (r: String)
        ensures
            r@ == error_text(*self),
    {
        match self {
            FetchError::Io(m) => m.clone(),
            FetchError::Network(m) => m.clone(),
            FetchError::Extract(x) => x.message(),
        }
    }
}

impl RefreshRecord {
    /// The record of a table that has just appeared.
    pub fn new(source: &TableSource) -> (r: RefreshRecord)
        ensures
            fresh_record_spec(*source, r),
    {
        let rows = match source {
            TableSource::Static { data } => clone_rows(data),
            _ => {
                let mut rows: Vec<Vec<String>> = Vec::new();
                rows.push(Vec::new());
                assert(rows@[0].deep_view() =~= Seq::<Seq<char>>::empty());
                assert(rows.deep_view() =~= seq![Seq::<Seq<char>>::empty()]);
                rows
            },
        };
        RefreshRecord {
            cached_rows: rows,
            last_attempt_at: None,
            consecutive_failures: 0,
            backoff_until: None,
            last_error: None,
        }
    }

    /// Decides what one tick does for this table: nothing for static data, a
    /// table in backoff or one not yet due; a configuration error where the
    /// mapping is absent; otherwise a fetch.
    pub fn decide(&self, source: &TableSource, now: u64) -> (r: TickDecision)
        ensures
            r == decide_spec(*source, *self, now),
    {
        if let TableSource::Static { .. } = source {
            return TickDecision::Idle;
        }
        if source.mapping().is_none() {
            return TickDecision::ConfigError;
        }
        if let Some(until) = self.backoff_until {
            if now < until {
                return TickDecision::Idle;
            }
        }
        if let Some(last) = self.last_attempt_at {
            if now < last || now - last < source.refresh_interval_ms() {
                return TickDecision::Idle;
            }
        }
        TickDecision::Fetch
    }

    /// Records fetched rows: they replace the cache, and failures, backoff
    /// and error are cleared.
    pub fn record_success(&mut self, rows: Vec<Vec<String>>, now: u64)
        ensures
            success_spec(rows.deep_view(), now, *final(self)),
    {
        self.cached_rows = rows;
        self.last_attempt_at = Some(now);
        self.consecutive_failures = 0;
        self.backoff_until = None;
        self.last_error = None;
    }

    /// Records a failed fetch: the cache stays, the error is kept, and from
    /// the threshold on the table backs off for a doubling delay.
    pub fn record_failure(&mut self, error: &FetchError, now: u64)
        ensures
            failure_spec(*old(self), error_text(*error), now, *final(self)),
    {
        let failures = self.consecutive_failures.saturating_add(1);
        self.consecutive_failures = failures;
        self.last_error = Some(error.message());
        self.last_attempt_at = Some(now);
        if failures >= RETRY_THRESHOLD {
            let delay = backoff_delay(failures);
            self.backoff_until = Some(now.saturating_add(delay));
        } else {
            self.backoff_until = None;
        }
    }

    /// Applies the outcome of a fetch.
    pub fn apply(&mut self, outcome: Result<Vec<Vec<String>>, FetchError>, now: u64)
        ensures
            match outcome {
                Ok(rows) => success_spec(rows.deep_view(), now, *final(self)),
                Err(e) => failure_spec(*old(self), error_text(e), now, *final(self)),
            },
    {
        match outcome {
            Ok(rows) => self.record_success(rows, now),
            Err(e) => self.record_failure(&e, now),
        }
    }

    /// Marks a source without a mapping: the error is shown, nothing else
    /// changes, and no retry is scheduled.
    pub fn record_config_error(&mut self)
        ensures
            final(self).cached_rows == old(self).cached_rows,
            final(self).consecutive_failures == old(self).consecutive_failures,
            final(self).backoff_until == old(self).backoff_until,
            final(self).last_attempt_at == old(self).last_attempt_at,
            final(self).last_error is Some,
            final(self).last_error->0@ == extract_error_text(ExtractError::NoMapping),
    {
        self.last_error = Some(ExtractError::NoMapping.message());
    }
}

/// Two records that hold the same values.
pub open spec fn same_record(a: RefreshRecord, b: RefreshRecord) -> bool {
    &&& a.cached_rows.deep_view() == b.cached_rows.deep_view()
    &&& a.last_attempt_at == b.last_attempt_at
    &&& a.consecutive_failures == b.consecutive_failures
    &&& a.backoff_until == b.backoff_until
    &&& a.last_error.deep_view() == b.last_error.deep_view()
}

impl RefreshRecord {
    /// A copy of this record.
    pub fn duplicate(&self) -> (r: RefreshRecord)
        ensures
            same_record(r, *self),
    {
        let last_error = match &self.last_error {
            Some(e) => Some(e.clone()),
            None => None,
        };
        RefreshRecord {
            cached_rows: clone_rows(&self.cached_rows),
            last_attempt_at: self.last_attempt_at,
            consecutive_failures: self.consecutive_failures,
            backoff_until: self.backoff_until,
            last_error,
        }
    }
}

/// The backoff doubles with each failure past the threshold.
pub proof fn backoff_doubles(failures: nat)
    requires
        failures >= RETRY_THRESHOLD,
    ensures
        backoff_delay_spec(failures + 1) == 2 * backoff_delay_spec(failures),
        backoff_delay_spec(failures + 1) > backoff_delay_spec(failures),
{
    assert(doubling((failures + 1 - RETRY_THRESHOLD) as nat) == 2 * doubling((failures - RETRY_THRESHOLD) as nat));
    lemma_doubling_positive((failures - RETRY_THRESHOLD) as nat);
}

/// The first delays: five, ten and twenty seconds at three, four and five
/// failures.
pub proof fn first_backoff_delays()
    ensures
        backoff_delay_spec(3) == 5000,
        backoff_delay_spec(4) == 10000,
        backoff_delay_spec(5) == 20000,
{
    reveal_with_fuel(doubling, 3);
}

proof fn lemma_doubling_positive(k: nat)
    ensures
        doubling(k) >= 1,
    decreases k,
{
    if k > 0 {
        lemma_doubling_positive((k - 1) as nat);
    }
}

/// A failed refresh keeps the cached rows, sets the error, and counts exactly
/// one more failure.
pub proof fn failure_keeps_cache(old: RefreshRecord, error: FetchError, now: u64, new: RefreshRecord)
    requires
        failure_spec(old, error_text(error), now, new),
        old.consecutive_failures < u64::MAX,
    ensures
        new.cached_rows == old.cached_rows,
        new.cached_rows.deep_view() == old.cached_rows.deep_view(),
        new.last_error is Some,
        new.last_error->0@ == error_text(error),
        new.consecutive_failures == old.consecutive_failures + 1,
{
}

/// A successful refresh, after any number of failures, clears the failure
/// count, the backoff and the error, and shows the new rows.
pub proof fn success_resets(rows: Seq<Seq<Seq<char>>>, now: u64, new: RefreshRecord)
    requires
        success_spec(rows, now, new),
    ensures
        new.consecutive_failures == 0,
        new.backoff_until is None,
        new.last_error is None,
        new.cached_rows.deep_view() == rows,
{
}

/// A copy of a grid of strings.
pub fn clone_rows(rows: &Vec<Vec<String>>) -> (r: Vec<Vec<String>>)
    ensures
        r.deep_view() == rows.deep_view(),
{
    let mut out: Vec<Vec<String>> = Vec::new();
    let mut i: usize = 0;
    while i < rows.len()
        invariant
            i <= rows.len(),
            out@.len() == i,
            forall|k: int| 0 <= k < i ==> #[trigger] out@[k].deep_view() == rows@[k].deep_view(),
        decreases rows.len() - i,
    {
        let mut row: Vec<String> = Vec::new();
        let mut j: usize = 0;
        while j < rows[i].len()
            invariant
                i < rows.len(),
                j <= rows@[i as int].len(),
                row@.len() == j,
                forall|k: int| 0 <= k < j ==> #[trigger] row@[k]@ == rows@[i as int]@[k]@,
            decreases rows@[i as int].len() - j,
        {
            row.push(rows[i][j].clone());
            j += 1;
        }
        assert(row.deep_view() =~= rows@[i as int].deep_view());
        out.push(row);
        i += 1;
    }
    assert(out.deep_view() =~= rows.deep_view());
    out
}

} // verus!
