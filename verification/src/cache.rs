//! The profile cache: where it lives, when it is current, and the steps
//! that lead to a profile array.

use vstd::prelude::*;
use crate::maps::{offset_entries, offsets_insert, offsets_new, texts, OffsetMap};
use crate::schema::StatsMode;
use crate::text::same_text;

verus! {

/// What `Path::with_extension` makes of a path and an extension: the path
/// with the extension of its file name replaced, or added where the file
/// name has none.
pub uninterp spec fn path_with_extension(path: Seq<char>, extension: Seq<char>) -> Seq<char>;

/// Whether the text holds no path separator.
pub open spec fn separator_free(text: Seq<char>) -> bool {
    forall|i: int| 0 <= i < text.len() ==> text[i] != '/' && text[i] != '\\'
}

/// Replaces the extension of the file name of a path with `Path::with_extension`.
///
/// Trusted: the outcome depends on the two texts alone; std splits the path
/// by the separators of the platform that the library is built for. std
/// panics on an extension that holds a path separator, which is left out.
#[verifier::external_body]
pub(crate) fn with_extension(path: &str, extension: &str) -> (r: String)
    requires
        separator_free(extension@),
    ensures
        r@ == path_with_extension(path@, extension@),
{
    std::path::Path::new(path).with_extension(extension).to_string_lossy().into_owned()
}

/// The path of the profile cache of an input: the input path with the
/// extension `stats.csv.bin.sz`.
pub fn stats_cache_path(canonical_input: &str) -> (r: String)
    ensures
        r@ == path_with_extension(canonical_input@, "stats.csv.bin.sz"@),
{
    proof {
        reveal_strlit("stats.csv.bin.sz");
    }
    with_extension(canonical_input, "stats.csv.bin.sz")
}

/// The path of the textual statistics table of an input: the input path
/// with the extension `stats.csv`.
pub fn stats_table_path(canonical_input: &str) -> (r: String)
    ensures
        r@ == path_with_extension(canonical_input@, "stats.csv"@),
{
    proof {
        reveal_strlit("stats.csv");
    }
    with_extension(canonical_input, "stats.csv")
}

/// A modification time: whole seconds since the epoch, and the nanoseconds after them.
#[derive(Clone, Copy, Debug, PartialEq, Eq, Structural)]
pub struct Timestamp {
    pub seconds: u64,
    pub nanoseconds: u32,
}

impl Timestamp {
    /// Whether this time is strictly later than the other.
    pub open spec fn later_than(self, other: Timestamp) -> bool {
        self.seconds > other.seconds || (self.seconds == other.seconds && self.nanoseconds > other.nanoseconds)
    }

    /// Whether this time is strictly later than the other.
    pub fn is_later_than(&self, other: &Timestamp) -> (r: bool)
        ensures
            r == self.later_than(*other),
    {
        self.seconds > other.seconds || (self.seconds == other.seconds && self.nanoseconds > other.nanoseconds)
    }
}

/// A cache is current when it exists and was modified strictly later than the input.
pub open spec fn is_current(cache_modified: Option<Timestamp>, input_modified: Timestamp) -> bool {
    cache_modified matches Some(t) && t.later_than(input_modified)
}

/// Whether the cache is current.
pub fn cache_is_current(cache_modified: Option<Timestamp>, input_modified: Timestamp) -> (r: bool)
    ensures
        r == is_current(cache_modified, input_modified),
{
    match cache_modified {
        Some(t) => t.is_later_than(&input_modified),
        None => false,
    }
}

/// Where the orchestrator stands.
#[derive(Clone, Copy, Debug, PartialEq, Eq, Structural)]
pub enum CachePhase {
    Start,
    AwaitProbe,
    AwaitCacheLoad,
    AwaitRegeneration,
    AwaitFreshLoad,
    Finished,
}

/// What has happened outside the orchestrator.
#[derive(Clone, Copy, Debug, PartialEq, Eq, Structural)]
pub enum CacheEvent {
    /// The run begins.
    Begin,
    /// The files were looked at: when the cache was modified, if it exists, and when the input was.
    Probed { cache_modified: Option<Timestamp>, input_modified: Timestamp },
    /// The cache was read: whether it could be decoded.
    Loaded(bool),
    /// The profiling run has ended: whether it succeeded.
    Regenerated(bool),
}

/// Where the names of the statistics are read from.
#[derive(Clone, Copy, Debug, PartialEq, Eq, Structural)]
pub enum HeaderSource {
    /// The textual statistics table that was written with the cache.
    CompanionTable,
    /// The table that the profiling run has just written.
    FreshRun,
}

/// What the caller is to do next.
#[derive(Clone, Copy, Debug, PartialEq, Eq, Structural)]
pub enum CacheAction {
    /// Look at the cache file and the input file.
    ProbeFiles,
    /// Read and decode the cache.
    LoadCache,
    /// Run the profiling of the input, which writes a fresh cache.
    Regenerate,
    /// Read and decode the cache that the profiling run wrote.
    LoadFreshCache,
    /// The profile array is there; read the names of the statistics from the source.
    UseProfiles(HeaderSource),
    /// No profile is to be had: go on without one.
    ReturnEmpty,
    /// The run has failed.
    Fail,
    /// The event does not fit the state.
    Reject,
}

/// Whether no profile is wanted: the mode asks for none, or it asks for a
/// current cache only and there is none.
pub open spec fn skips_profiles(mode: StatsMode, current: bool) -> bool {
    mode == StatsMode::NoStats || (mode == StatsMode::Frequency && !current)
}

/// The next phase and the action after an event.
pub open spec fn next_step(mode: StatsMode, force: bool, phase: CachePhase, event: CacheEvent) -> (CachePhase, CacheAction) {
    match (phase, event) {
        (CachePhase::Start, CacheEvent::Begin) => (CachePhase::AwaitProbe, CacheAction::ProbeFiles),
        (CachePhase::AwaitProbe, CacheEvent::Probed { cache_modified, input_modified }) => {
            let current = is_current(cache_modified, input_modified);
            if skips_profiles(mode, current) {
                (CachePhase::Finished, CacheAction::ReturnEmpty)
            } else if current && !force {
                (CachePhase::AwaitCacheLoad, CacheAction::LoadCache)
            } else {
                (CachePhase::AwaitRegeneration, CacheAction::Regenerate)
            }
        },
        (CachePhase::AwaitCacheLoad, CacheEvent::Loaded(true)) => (
            CachePhase::Finished,
            CacheAction::UseProfiles(HeaderSource::CompanionTable),
        ),
        (CachePhase::AwaitCacheLoad, CacheEvent::Loaded(false)) => (
            CachePhase::AwaitRegeneration,
            CacheAction::Regenerate,
        ),
        (CachePhase::AwaitRegeneration, CacheEvent::Regenerated(true)) => (
            CachePhase::AwaitFreshLoad,
            CacheAction::LoadFreshCache,
        ),
        (CachePhase::AwaitRegeneration, CacheEvent::Regenerated(false)) => (CachePhase::Finished, CacheAction::Fail),
        (CachePhase::AwaitFreshLoad, CacheEvent::Loaded(true)) => (
            CachePhase::Finished,
            CacheAction::UseProfiles(HeaderSource::FreshRun),
        ),
        (CachePhase::AwaitFreshLoad, CacheEvent::Loaded(false)) => (CachePhase::Finished, CacheAction::Fail),
        _ => (CachePhase::Finished, CacheAction::Reject),
    }
}

/// Takes an event and says what to do next to get the profile array.
pub fn get_stats_step(mode: StatsMode, force: bool, phase: CachePhase, event: CacheEvent) -> (r: (CachePhase, CacheAction))
    ensures
        r == next_step(mode, force, phase, event),
{
    match (phase, event) {
        (CachePhase::Start, CacheEvent::Begin) => (CachePhase::AwaitProbe, CacheAction::ProbeFiles),
        (CachePhase::AwaitProbe, CacheEvent::Probed { cache_modified, input_modified }) => {
            let current = cache_is_current(cache_modified, input_modified);
            if mode == StatsMode::NoStats || (mode == StatsMode::Frequency && !current) {
                (CachePhase::Finished, CacheAction::ReturnEmpty)
            } else if current && !force {
                (CachePhase::AwaitCacheLoad, CacheAction::LoadCache)
            } else {
                (CachePhase::AwaitRegeneration, CacheAction::Regenerate)
            }
        },
        (CachePhase::AwaitCacheLoad, CacheEvent::Loaded(true)) => (
            CachePhase::Finished,
            CacheAction::UseProfiles(HeaderSource::CompanionTable),
        ),
        (CachePhase::AwaitCacheLoad, CacheEvent::Loaded(false)) => (
            CachePhase::AwaitRegeneration,
            CacheAction::Regenerate,
        ),
        (CachePhase::AwaitRegeneration, CacheEvent::Regenerated(true)) => (
            CachePhase::AwaitFreshLoad,
            CacheAction::LoadFreshCache,
        ),
        (CachePhase::AwaitRegeneration, CacheEvent::Regenerated(false)) => (CachePhase::Finished, CacheAction::Fail),
        (CachePhase::AwaitFreshLoad, CacheEvent::Loaded(true)) => (
            CachePhase::Finished,
            CacheAction::UseProfiles(HeaderSource::FreshRun),
        ),
        (CachePhase::AwaitFreshLoad, CacheEvent::Loaded(false)) => (CachePhase::Finished, CacheAction::Fail),
        _ => (CachePhase::Finished, CacheAction::Reject),
    }
}

/// How far a phase is from the start.
pub open spec fn phase_rank(phase: CachePhase) -> nat {
    match phase {
        CachePhase::Start => 0,
        CachePhase::AwaitProbe => 1,
        CachePhase::AwaitCacheLoad => 2,
        CachePhase::AwaitRegeneration => 3,
        CachePhase::AwaitFreshLoad => 4,
        CachePhase::Finished => 5,
    }
}

/// Every step takes the lookup further: it is over after five events at
/// most, and the profiling run is made once at most.
pub proof fn lemma_lookup_progresses(mode: StatsMode, force: bool, phase: CachePhase, event: CacheEvent)
    ensures
        phase != CachePhase::Finished ==> phase_rank(next_step(mode, force, phase, event).0) > phase_rank(phase),
        phase == CachePhase::Finished ==> next_step(mode, force, phase, event) == (
            CachePhase::Finished,
            CacheAction::Reject,
        ),
        next_step(mode, force, phase, event).1 == CacheAction::Regenerate ==> next_step(mode, force, phase, event).0
            == CachePhase::AwaitRegeneration && phase_rank(phase) < phase_rank(CachePhase::AwaitRegeneration),
{
}

/// An input that was modified at or after the time of its cache makes the
/// cache stale: where a profile is wanted, it is regenerated.
pub proof fn lemma_stale_cache_is_regenerated(
    mode: StatsMode,
    force: bool,
    cache_modified: Option<Timestamp>,
    input_modified: Timestamp,
)
    requires
        cache_modified matches Some(t) ==> !t.later_than(input_modified),
        mode == StatsMode::Schema || mode == StatsMode::FrequencyForceStats,
    ensures
        next_step(mode, force, CachePhase::AwaitProbe, CacheEvent::Probed { cache_modified, input_modified }) == (
            CachePhase::AwaitRegeneration,
            CacheAction::Regenerate,
        ),
{
}

/// A cache that was modified later than its input is reused, where no
/// recomputation is forced: it is loaded, and a cache that decodes ends
/// the run without a profiling run.
pub proof fn lemma_current_cache_is_reused(mode: StatsMode, cache_modified: Timestamp, input_modified: Timestamp)
    requires
        cache_modified.later_than(input_modified),
        mode != StatsMode::NoStats,
    ensures
        next_step(
            mode,
            false,
            CachePhase::AwaitProbe,
            CacheEvent::Probed { cache_modified: Some(cache_modified), input_modified },
        ) == (CachePhase::AwaitCacheLoad, CacheAction::LoadCache),
        next_step(mode, false, CachePhase::AwaitCacheLoad, CacheEvent::Loaded(true)) == (
            CachePhase::Finished,
            CacheAction::UseProfiles(HeaderSource::CompanionTable),
        ),
{
}

/// A cache that does not decode is no failure: the profile is regenerated.
/// Only a fresh cache that does not decode either ends the run in failure.
pub proof fn lemma_corrupt_cache_is_regenerated(mode: StatsMode, force: bool)
    ensures
        next_step(mode, force, CachePhase::AwaitCacheLoad, CacheEvent::Loaded(false)) == (
            CachePhase::AwaitRegeneration,
            CacheAction::Regenerate,
        ),
        next_step(mode, force, CachePhase::AwaitFreshLoad, CacheEvent::Loaded(false)) == (
            CachePhase::Finished,
            CacheAction::Fail,
        ),
{
}

/// The offsets of the first `n` columns of a statistics table inside a
/// profile record. The record lacks the leading column of the table, so the
/// column at position `i` stands at offset `i - 1`; the leading column, and
/// any column named `field`, has no offset.
pub open spec fn offsets_of(columns: Seq<Seq<char>>, n: int) -> Map<Seq<char>, usize>
    decreases n,
{
    if n <= 0 {
        Map::empty()
    } else {
        let earlier = offsets_of(columns, n - 1);
        if n - 1 > 0 && columns[n - 1] != "field"@ {
            earlier.insert(columns[n - 1], (n - 2) as usize)
        } else {
            earlier
        }
    }
}

/// Maps each named statistic of a statistics table to its offset inside a profile record.
pub fn build_stats_index(stats_columns: &Vec<String>) -> (r: OffsetMap)
    ensures
        offset_entries(r) == offsets_of(texts(stats_columns@), stats_columns@.len() as int),
{
    let mut stats_col_index_map = offsets_new();
    let mut i: usize = 0;
    while i < stats_columns.len()
        invariant
            i <= stats_columns.len(),
            offset_entries(stats_col_index_map) == offsets_of(texts(stats_columns@), i as int),
        decreases stats_columns.len() - i,
    {
        assert(texts(stats_columns@)[i as int] == stats_columns@[i as int]@);
        if i > 0 && !same_text(stats_columns[i].as_str(), "field") {
            offsets_insert(&mut stats_col_index_map, stats_columns[i].clone(), i - 1);
        }
        i += 1;
    }
    stats_col_index_map
}

} // verus!
