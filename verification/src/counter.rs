//! The adaptive record counter: which way of counting is taken, and what
//! is done when the accelerated engine fails.

use vstd::prelude::*;
use vstd::string::{StrSliceExecFns, StringExecFns};
use crate::cache::Timestamp;
use crate::count::CountResult;
use crate::text::{decimal_digits, decimal_text, grouped, human_count};

verus! {

/// What the counter knows of its input and its options before it starts.
#[derive(Clone, Copy, Debug, PartialEq, Eq, Structural)]
pub struct CounterConfig {
    /// The width of the longest record is asked for.
    pub width: bool,
    /// Records may differ in their number of fields.
    pub flexible: bool,
    /// The first row is data, not a header.
    pub no_headers: bool,
    /// The accelerated engine is part of this build.
    pub engine_available: bool,
    /// The caller has switched the accelerated engine off.
    pub engine_disabled: bool,
    /// The input is a compressed stream that cannot be sought.
    pub compressed: bool,
    /// The input is standard input.
    pub stdin: bool,
}

/// How the records are read by the streaming scan.
#[derive(Clone, Copy, Debug, PartialEq, Eq, Structural)]
pub struct ReaderOptions {
    pub no_headers: bool,
    /// Quotes delimit fields. They are data where the width is computed.
    pub quoting: bool,
    /// Records may differ in their number of fields.
    pub flexible: bool,
}

/// The reader options of a count: quotes are data and records may differ
/// where the width is asked for.
pub fn reader_options(config: &CounterConfig) -> (r: ReaderOptions)
    ensures
        r == (ReaderOptions {
            no_headers: config.no_headers,
            quoting: !config.width,
            flexible: config.width || config.flexible,
        }),
{
    ReaderOptions { no_headers: config.no_headers, quoting: !config.width, flexible: config.width || config.flexible }
}

/// An index is fresh when it exists and the input was not modified after it.
pub open spec fn is_fresh(index_modified: Option<Timestamp>, input_modified: Timestamp) -> bool {
    index_modified matches Some(t) && !input_modified.later_than(t)
}

/// Whether the index of an input is fresh.
pub fn index_is_fresh(index_modified: Option<Timestamp>, input_modified: Timestamp) -> (r: bool)
    ensures
        r == is_fresh(index_modified, input_modified),
{
    match index_modified {
        Some(t) => !input_modified.is_later_than(&t),
        None => false,
    }
}

/// Whether a path ends in `.sz`, in either case: the name of a compressed stream.
pub open spec fn names_compressed(path: Seq<char>) -> bool {
    &&& path.len() >= 3
    &&& path[path.len() - 3] == '.'
    &&& (path[path.len() - 2] == 's' || path[path.len() - 2] == 'S')
    &&& (path[path.len() - 1] == 'z' || path[path.len() - 1] == 'Z')
}

/// Whether the path names a compressed stream.
pub fn is_compressed(path: &str) -> (r: bool)
    ensures
        r == names_compressed(path@),
{
    let len = path.unicode_len();
    if len < 3 {
        return false;
    }
    let dot = path.get_char(len - 3);
    let s = path.get_char(len - 2);
    let z = path.get_char(len - 1);
    dot == '.' && (s == 's' || s == 'S') && (z == 'z' || z == 'Z')
}

/// What the accelerated engine made of a count query.
#[derive(Clone, Copy, Debug, PartialEq, Eq, Structural)]
pub enum EngineOutcome {
    /// The number of rows after the row that the engine took for the header.
    Counted(u32),
    /// The query plan could not be built.
    PlanFailed,
    /// The query could not be executed.
    ExecutionFailed,
    /// The result holds no count.
    CountMissing,
}

/// Where the counter stands.
#[derive(Clone, Copy, Debug, PartialEq, Eq, Structural)]
pub enum Phase {
    Start,
    AwaitIndex,
    AwaitStdinCopy,
    AwaitEngine,
    AwaitScan,
    AwaitCleanup,
    Finished,
}

/// The state of the counter.
#[derive(Clone, Copy, Debug, PartialEq, Eq, Structural)]
pub struct CounterState {
    pub phase: Phase,
    /// Standard input has been copied to a temporary file that still exists.
    pub temp_file: bool,
    /// The result that is reported once the temporary file is gone.
    pub pending: Option<CountResult>,
}

/// What has happened outside the counter.
#[derive(Clone, Copy, Debug, PartialEq, Eq, Structural)]
pub enum CounterEvent {
    /// The run begins.
    Begin,
    /// The index was looked for: its stored count, or `None` where there is no fresh index.
    Index(Option<u64>),
    /// Standard input was copied to a temporary file, or could not be.
    StdinCopied(bool),
    /// The accelerated engine has answered.
    Engine(EngineOutcome),
    /// The streaming scan has ended: its result, or `None` where it failed.
    Scanned(Option<CountResult>),
    /// The temporary file was removed, or could not be.
    TempRemoved(bool),
}

/// What the caller is to do next.
#[derive(Clone, Copy, Debug, PartialEq, Eq, Structural)]
pub enum CounterAction {
    /// Look for a fresh index.
    ProbeIndex,
    /// Copy standard input to a temporary file.
    CopyStdin,
    /// Run the count query on the accelerated engine.
    RunEngine,
    /// Scan the records one by one; `from_temp` says to read the temporary file.
    Scan { compute_width: bool, from_temp: bool },
    /// Remove the temporary file.
    RemoveTemp,
    /// The count is known.
    Report(CountResult),
    /// The count cannot be had.
    Fail,
    /// The event does not fit the state.
    Reject,
}

/// Whether a full scan is called for before anything else is tried.
pub open spec fn needs_full_scan(config: CounterConfig) -> bool {
    config.width || config.flexible
}

/// Whether the accelerated engine may be used on this input.
pub open spec fn engine_usable(config: CounterConfig) -> bool {
    config.engine_available && !config.engine_disabled && !config.compressed
}

/// The count of an engine answer: one more where the first row is data,
/// since the engine took that row for a header.
pub open spec fn compensated(raw: u32, no_headers: bool) -> u64 {
    if no_headers {
        (raw + 1) as u64
    } else {
        raw as u64
    }
}

/// A finished counter.
pub open spec fn finished() -> CounterState {
    CounterState { phase: Phase::Finished, temp_file: false, pending: None }
}

/// A counter in the given phase, with or without a temporary file.
pub open spec fn waiting(phase: Phase, temp_file: bool) -> CounterState {
    CounterState { phase, temp_file, pending: None }
}

/// The next state and the action after an event.
pub open spec fn next(config: CounterConfig, state: CounterState, event: CounterEvent) -> (CounterState, CounterAction) {
    match (state.phase, event) {
        (Phase::Start, CounterEvent::Begin) => if needs_full_scan(config) {
            (waiting(Phase::AwaitScan, false), CounterAction::Scan { compute_width: config.width, from_temp: false })
        } else {
            (waiting(Phase::AwaitIndex, false), CounterAction::ProbeIndex)
        },
        (Phase::AwaitIndex, CounterEvent::Index(Some(count))) => (
            finished(),
            CounterAction::Report(CountResult { count, width: None }),
        ),
        (Phase::AwaitIndex, CounterEvent::Index(None)) => if !engine_usable(config) {
            (waiting(Phase::AwaitScan, false), CounterAction::Scan { compute_width: false, from_temp: false })
        } else if config.stdin {
            (waiting(Phase::AwaitStdinCopy, false), CounterAction::CopyStdin)
        } else {
            (waiting(Phase::AwaitEngine, false), CounterAction::RunEngine)
        },
        (Phase::AwaitStdinCopy, CounterEvent::StdinCopied(true)) => (
            waiting(Phase::AwaitEngine, true),
            CounterAction::RunEngine,
        ),
        (Phase::AwaitStdinCopy, CounterEvent::StdinCopied(false)) => (finished(), CounterAction::Fail),
        (Phase::AwaitEngine, CounterEvent::Engine(EngineOutcome::Counted(raw))) => {
            let result = CountResult { count: compensated(raw, config.no_headers), width: None };
            if state.temp_file {
                (
                    CounterState { phase: Phase::AwaitCleanup, temp_file: true, pending: Some(result) },
                    CounterAction::RemoveTemp,
                )
            } else {
                (finished(), CounterAction::Report(result))
            }
        },
        (Phase::AwaitEngine, CounterEvent::Engine(_)) => (
            waiting(Phase::AwaitScan, state.temp_file),
            CounterAction::Scan { compute_width: false, from_temp: state.temp_file },
        ),
        (Phase::AwaitScan, CounterEvent::Scanned(Some(result))) => if state.temp_file {
            (
                CounterState { phase: Phase::AwaitCleanup, temp_file: true, pending: Some(result) },
                CounterAction::RemoveTemp,
            )
        } else {
            (finished(), CounterAction::Report(result))
        },
        (Phase::AwaitScan, CounterEvent::Scanned(None)) => if state.temp_file {
            (CounterState { phase: Phase::AwaitCleanup, temp_file: true, pending: None }, CounterAction::RemoveTemp)
        } else {
            (finished(), CounterAction::Fail)
        },
        (Phase::AwaitCleanup, CounterEvent::TempRemoved(true)) => match state.pending {
            Some(result) => (finished(), CounterAction::Report(result)),
            None => (finished(), CounterAction::Fail),
        },
        (Phase::AwaitCleanup, CounterEvent::TempRemoved(false)) => (finished(), CounterAction::Fail),
        _ => (finished(), CounterAction::Reject),
    }
}

/// The state before the run begins.
pub fn start() -> (r: CounterState)
    ensures
        r == waiting(Phase::Start, false),
{
    CounterState { phase: Phase::Start, temp_file: false, pending: None }
}

/// Takes an event and says what to do next.
pub fn step(config: &CounterConfig, state: CounterState, event: CounterEvent) -> (r: (CounterState, CounterAction))
    ensures
        r == next(*config, state, event),
{
    let done = CounterState { phase: Phase::Finished, temp_file: false, pending: None };
    let full_scan = config.width || config.flexible;
    let usable = config.engine_available && !config.engine_disabled && !config.compressed;
    match (state.phase, event) {
        (Phase::Start, CounterEvent::Begin) => {
            if full_scan {
                (
                    CounterState { phase: Phase::AwaitScan, temp_file: false, pending: None },
                    CounterAction::Scan { compute_width: config.width, from_temp: false },
                )
            } else {
                (CounterState { phase: Phase::AwaitIndex, temp_file: false, pending: None }, CounterAction::ProbeIndex)
            }
        },
        (Phase::AwaitIndex, CounterEvent::Index(Some(count))) => (
            done,
            CounterAction::Report(CountResult { count, width: None }),
        ),
        (Phase::AwaitIndex, CounterEvent::Index(None)) => {
            if !usable {
                (
                    CounterState { phase: Phase::AwaitScan, temp_file: false, pending: None },
                    CounterAction::Scan { compute_width: false, from_temp: false },
                )
            } else if config.stdin {
                (CounterState { phase: Phase::AwaitStdinCopy, temp_file: false, pending: None }, CounterAction::CopyStdin)
            } else {
                (CounterState { phase: Phase::AwaitEngine, temp_file: false, pending: None }, CounterAction::RunEngine)
            }
        },
        (Phase::AwaitStdinCopy, CounterEvent::StdinCopied(true)) => (
            CounterState { phase: Phase::AwaitEngine, temp_file: true, pending: None },
            CounterAction::RunEngine,
        ),
        (Phase::AwaitStdinCopy, CounterEvent::StdinCopied(false)) => (done, CounterAction::Fail),
        (Phase::AwaitEngine, CounterEvent::Engine(EngineOutcome::Counted(raw))) => {
            let result = CountResult { count: engine_count(raw, config.no_headers), width: None };
            if state.temp_file {
                (
                    CounterState { phase: Phase::AwaitCleanup, temp_file: true, pending: Some(result) },
                    CounterAction::RemoveTemp,
                )
            } else {
                (done, CounterAction::Report(result))
            }
        },
        (Phase::AwaitEngine, CounterEvent::Engine(_)) => (
            CounterState { phase: Phase::AwaitScan, temp_file: state.temp_file, pending: None },
            CounterAction::Scan { compute_width: false, from_temp: state.temp_file },
        ),
        (Phase::AwaitScan, CounterEvent::Scanned(Some(result))) => {
            if state.temp_file {
                (
                    CounterState { phase: Phase::AwaitCleanup, temp_file: true, pending: Some(result) },
                    CounterAction::RemoveTemp,
                )
            } else {
                (done, CounterAction::Report(result))
            }
        },
        (Phase::AwaitScan, CounterEvent::Scanned(None)) => {
            if state.temp_file {
                (CounterState { phase: Phase::AwaitCleanup, temp_file: true, pending: None }, CounterAction::RemoveTemp)
            } else {
                (done, CounterAction::Fail)
            }
        },
        (Phase::AwaitCleanup, CounterEvent::TempRemoved(true)) => match state.pending {
            Some(result) => (done, CounterAction::Report(result)),
            None => (done, CounterAction::Fail),
        },
        (Phase::AwaitCleanup, CounterEvent::TempRemoved(false)) => (done, CounterAction::Fail),
        _ => (done, CounterAction::Reject),
    }
}

/// The count that is reported for an engine answer.
pub fn engine_count(raw: u32, no_headers: bool) -> (r: u64)
    ensures
        r == compensated(raw, no_headers),
{
    if no_headers {
        raw as u64 + 1
    } else {
        raw as u64
    }
}

/// Where the width is asked for, or records may differ in their number of
/// fields, the counter scans at once: neither the index nor the engine is tried.
pub proof fn lemma_full_scan_comes_first(config: CounterConfig)
    requires
        needs_full_scan(config),
    ensures
        next(config, waiting(Phase::Start, false), CounterEvent::Begin) == (
            waiting(Phase::AwaitScan, false),
            CounterAction::Scan { compute_width: config.width, from_temp: false },
        ),
{
}

/// A fresh index settles the count: its stored count is reported, and the
/// engine is not tried.
pub proof fn lemma_fresh_index_is_used(config: CounterConfig, count: u64)
    requires
        !needs_full_scan(config),
    ensures
        next(config, waiting(Phase::Start, false), CounterEvent::Begin).1 == CounterAction::ProbeIndex,
        next(config, waiting(Phase::AwaitIndex, false), CounterEvent::Index(Some(count))).1 == CounterAction::Report(
            CountResult { count, width: None },
        ),
{
}

/// Whatever way the engine fails, the counter falls back to the streaming
/// scan: an engine failure never ends the run.
pub proof fn lemma_engine_failure_falls_back(config: CounterConfig, temp_file: bool, outcome: EngineOutcome)
    requires
        !(outcome is Counted),
    ensures
        next(config, waiting(Phase::AwaitEngine, temp_file), CounterEvent::Engine(outcome)) == (
            waiting(Phase::AwaitScan, temp_file),
            CounterAction::Scan { compute_width: false, from_temp: temp_file },
        ),
{
}

/// The records of a file of `rows` rows: every row, or every row but the header.
pub open spec fn records_in(rows: u32, no_headers: bool) -> u64 {
    if no_headers {
        rows as u64
    } else {
        (rows - 1) as u64
    }
}

/// On a file with at least one row, the three ways of counting report the
/// same count: the index with its stored count, the scan with the count of
/// its records, and the engine, which takes the first row for a header
/// whatever the caller says.
pub proof fn lemma_paths_agree(config: CounterConfig, rows: u32)
    requires
        rows >= 1,
    ensures
        next(
            config,
            waiting(Phase::AwaitIndex, false),
            CounterEvent::Index(Some(records_in(rows, config.no_headers))),
        ).1 == CounterAction::Report(CountResult { count: records_in(rows, config.no_headers), width: None }),
        next(
            config,
            waiting(Phase::AwaitEngine, false),
            CounterEvent::Engine(EngineOutcome::Counted((rows - 1) as u32)),
        ).1 == CounterAction::Report(CountResult { count: records_in(rows, config.no_headers), width: None }),
        next(
            config,
            waiting(Phase::AwaitScan, false),
            CounterEvent::Scanned(Some(CountResult { count: records_in(rows, config.no_headers), width: None })),
        ).1 == CounterAction::Report(CountResult { count: records_in(rows, config.no_headers), width: None }),
{
}

/// How the accelerated engine is to count.
#[derive(Clone, Debug)]
pub enum EnginePlan {
    /// Count with one query over the file.
    DirectSql { query: String },
    /// Read the file into a lazy frame with these options, register it
    /// under `table`, and count with `query`.
    LazyFrame { separator: u8, comment_prefix: Option<u8>, low_memory: bool, table: String, query: String },
}

/// The mathematical value of an [`EnginePlan`].
pub enum EnginePlanView {
    DirectSql { query: Seq<char> },
    LazyFrame { separator: u8, comment_prefix: Option<u8>, low_memory: bool, table: Seq<char>, query: Seq<char> },
}

impl View for EnginePlan {
    type V = EnginePlanView;

    open spec fn view(&self) -> EnginePlanView {
        match self {
            EnginePlan::DirectSql { query } => EnginePlanView::DirectSql { query: query@ },
            EnginePlan::LazyFrame { separator, comment_prefix, low_memory, table, query } => EnginePlanView::LazyFrame {
                separator: *separator,
                comment_prefix: *comment_prefix,
                low_memory: *low_memory,
                table: table@,
                query: query@,
            },
        }
    }
}

/// The plan for a file: the direct query where the delimiter is a comma
/// and neither a comment prefix nor low memory is set, else the lazy frame.
pub open spec fn plan_of(path: Seq<char>, delimiter: u8, comment: Option<u8>, low_memory: bool) -> EnginePlanView {
    if comment is None && delimiter == 44 && !low_memory {
        EnginePlanView::DirectSql { query: "SELECT COUNT(*) FROM read_csv('"@ + path + "')"@ }
    } else {
        EnginePlanView::LazyFrame {
            separator: delimiter,
            comment_prefix: comment,
            low_memory,
            table: "sql_lf"@,
            query: "SELECT COUNT(*) FROM sql_lf"@,
        }
    }
}

/// Plans the count query of the accelerated engine.
pub fn engine_plan(path: &str, delimiter: u8, comment: Option<u8>, low_memory: bool) -> (r: EnginePlan)
    ensures
        r@ == plan_of(path@, delimiter, comment, low_memory),
{
    if comment.is_none() && delimiter == 44 && !low_memory {
        let mut query = String::from_str("SELECT COUNT(*) FROM read_csv('");
        query.append(path);
        query.append("')");
        EnginePlan::DirectSql { query }
    } else {
        EnginePlan::LazyFrame {
            separator: delimiter,
            comment_prefix: comment,
            low_memory,
            table: String::from_str("sql_lf"),
            query: String::from_str("SELECT COUNT(*) FROM sql_lf"),
        }
    }
}

/// A number as it is written: in decimal, with commas between groups of
/// three digits where it is meant for human readers.
pub open spec fn written(n: u64, human_readable: bool) -> Seq<char> {
    if human_readable {
        grouped(decimal_digits(n as nat))
    } else {
        decimal_digits(n as nat)
    }
}

/// A result as it is written: the count, then a semicolon and the width where there is one.
pub open spec fn rendered(result: CountResult, human_readable: bool) -> Seq<char> {
    match result.width {
        Some(width) => written(result.count, human_readable) + ";"@ + written(width as u64, human_readable),
        None => written(result.count, human_readable),
    }
}

/// Writes a number.
pub fn write_number(n: u64, human_readable: bool) -> (r: String)
    ensures
        r@ == written(n, human_readable),
{
    if human_readable {
        human_count(n)
    } else {
        decimal_text(n)
    }
}

/// Writes a result.
pub fn render_count(result: &CountResult, human_readable: bool) -> (r: String)
    ensures
        r@ == rendered(*result, human_readable),
{
    let mut text = write_number(result.count, human_readable);
    match result.width {
        Some(width) => {
            text.append(";");
            let width_text = write_number(width as u64, human_readable);
            text.append(width_text.as_str());
        },
        None => {},
    }
    text
}

/// How far a phase is from the start.
pub open spec fn phase_rank(phase: Phase) -> nat {
    match phase {
        Phase::Start => 0,
        Phase::AwaitIndex => 1,
        Phase::AwaitStdinCopy => 2,
        Phase::AwaitEngine => 3,
        Phase::AwaitScan => 4,
        Phase::AwaitCleanup => 5,
        Phase::Finished => 6,
    }
}

/// Every step takes the counter further: a run is over after six events at most.
pub proof fn lemma_counter_progresses(config: CounterConfig, state: CounterState, event: CounterEvent)
    ensures
        state.phase != Phase::Finished ==> phase_rank(next(config, state, event).0.phase) > phase_rank(state.phase),
        state.phase == Phase::Finished ==> next(config, state, event) == (finished(), CounterAction::Reject),
{
}

/// The state after a sequence of events, from the start.
pub open spec fn state_after(config: CounterConfig, events: Seq<CounterEvent>) -> CounterState
    decreases events.len(),
{
    if events.len() == 0 {
        waiting(Phase::Start, false)
    } else {
        next(config, state_after(config, events.drop_last()), events.last()).0
    }
}

/// The action that the last of a sequence of events leads to.
pub open spec fn action_after(config: CounterConfig, events: Seq<CounterEvent>) -> CounterAction {
    next(config, state_after(config, events.drop_last()), events.last()).1
}

/// Where a full scan is called for, no sequence of events makes the
/// counter look for an index, copy standard input or run the engine.
pub proof fn lemma_full_scan_excludes_index_and_engine(config: CounterConfig, events: Seq<CounterEvent>)
    requires
        needs_full_scan(config),
        events.len() > 0,
    ensures
        action_after(config, events) != CounterAction::ProbeIndex,
        action_after(config, events) != CounterAction::CopyStdin,
        action_after(config, events) != CounterAction::RunEngine,
        action_after(config, events) != CounterAction::RemoveTemp,
        state_after(config, events).phase == Phase::AwaitScan || state_after(config, events).phase == Phase::Finished,
        !state_after(config, events).temp_file,
    decreases events.len(),
{
    if events.len() > 1 {
        lemma_full_scan_excludes_index_and_engine(config, events.drop_last());
    } else {
        assert(events.drop_last().len() == 0);
    }
}

} // verus!
