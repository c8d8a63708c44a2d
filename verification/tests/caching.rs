use csv_profiler::cache::{
    build_stats_index, cache_is_current, get_stats_step, stats_cache_path, stats_table_path,
    CacheAction, CacheEvent, CachePhase, HeaderSource, Timestamp,
};
use csv_profiler::profile::{column_kind, ColumnKind, ColumnProfile};
use csv_profiler::profiling::{njobs, profiling_arguments, profiling_request};
use csv_profiler::schema::{Args, SelectColumns, StatsMode};

fn at(seconds: u64, nanoseconds: u32) -> Timestamp {
    Timestamp { seconds, nanoseconds }
}

fn probed(cache: Option<Timestamp>, input: Timestamp) -> CacheEvent {
    CacheEvent::Probed { cache_modified: cache, input_modified: input }
}

fn drive(mode: StatsMode, force: bool, events: &[CacheEvent]) -> Vec<CacheAction> {
    let mut phase = CachePhase::Start;
    let mut actions = Vec::new();
    for event in events {
        let (next, action) = get_stats_step(mode, force, phase, *event);
        phase = next;
        actions.push(action);
    }
    actions
}

fn run_options() -> Args {
    Args {
        flag_enum_threshold: 50,
        flag_ignore_case: false,
        flag_strict_dates: false,
        flag_pattern_columns: SelectColumns { ordinals: Vec::new() },
        flag_dates_whitelist: "date,time".to_string(),
        flag_prefer_dmy: false,
        flag_force: false,
        flag_stdout: false,
        flag_jobs: None,
        flag_no_headers: false,
        flag_delimiter: None,
        arg_input: Some("data.csv".to_string()),
        flag_memcheck: false,
    }
}

#[test]
fn cache_path_replaces_the_extension() {
    assert_eq!(stats_cache_path("/data/mydata.csv"), "/data/mydata.stats.csv.bin.sz");
    assert_eq!(stats_table_path("/data/mydata.csv"), "/data/mydata.stats.csv");
    assert_eq!(stats_cache_path("/data/archive.tar.gz"), "/data/archive.tar.stats.csv.bin.sz");
}

#[test]
fn cache_path_of_a_name_without_extension_appends() {
    assert_eq!(stats_cache_path("/data/mydata"), "/data/mydata.stats.csv.bin.sz");
    assert_eq!(stats_cache_path("/data.d/mydata"), "/data.d/mydata.stats.csv.bin.sz");
    assert_eq!(stats_cache_path("/data/.hidden"), "/data/.hidden.stats.csv.bin.sz");
    assert_eq!(stats_cache_path(".hidden"), ".hidden.stats.csv.bin.sz");
    assert_eq!(stats_cache_path("/data/.hidden.csv"), "/data/.hidden.stats.csv.bin.sz");
    assert_eq!(stats_table_path("naïve.données.csv"), "naïve.données.stats.csv");
    assert_eq!(stats_table_path("trailing."), "trailing.stats.csv");
}

#[test]
fn cache_is_current_only_when_strictly_later() {
    assert!(cache_is_current(Some(at(100, 1)), at(100, 0)));
    assert!(cache_is_current(Some(at(101, 0)), at(100, 999_999_999)));
    assert!(!cache_is_current(Some(at(100, 0)), at(100, 0)));
    assert!(!cache_is_current(Some(at(99, 999_999_999)), at(100, 0)));
    assert!(!cache_is_current(None, at(0, 0)));
}

#[test]
fn touched_input_forces_regeneration() {
    let events = [
        CacheEvent::Begin,
        probed(Some(at(100, 0)), at(200, 0)),
        CacheEvent::Regenerated(true),
        CacheEvent::Loaded(true),
    ];
    assert_eq!(
        drive(StatsMode::Schema, false, &events),
        vec![
            CacheAction::ProbeFiles,
            CacheAction::Regenerate,
            CacheAction::LoadFreshCache,
            CacheAction::UseProfiles(HeaderSource::FreshRun)
        ]
    );
}

#[test]
fn touched_cache_is_reused_without_regeneration() {
    let events = [CacheEvent::Begin, probed(Some(at(300, 0)), at(200, 0)), CacheEvent::Loaded(true)];
    assert_eq!(
        drive(StatsMode::Schema, false, &events),
        vec![CacheAction::ProbeFiles, CacheAction::LoadCache, CacheAction::UseProfiles(HeaderSource::CompanionTable)]
    );
}

#[test]
fn force_regenerates_a_current_cache() {
    let events = [CacheEvent::Begin, probed(Some(at(300, 0)), at(200, 0))];
    assert_eq!(drive(StatsMode::Schema, true, &events)[1], CacheAction::Regenerate);
}

#[test]
fn missing_cache_is_regenerated() {
    let events = [CacheEvent::Begin, probed(None, at(200, 0))];
    assert_eq!(drive(StatsMode::Schema, false, &events)[1], CacheAction::Regenerate);
    assert_eq!(drive(StatsMode::FrequencyForceStats, false, &events)[1], CacheAction::Regenerate);
}

#[test]
fn corrupt_cache_is_regenerated_and_a_second_failure_is_fatal() {
    let events = [
        CacheEvent::Begin,
        probed(Some(at(300, 0)), at(200, 0)),
        CacheEvent::Loaded(false),
        CacheEvent::Regenerated(true),
        CacheEvent::Loaded(false),
    ];
    assert_eq!(
        drive(StatsMode::Schema, false, &events),
        vec![
            CacheAction::ProbeFiles,
            CacheAction::LoadCache,
            CacheAction::Regenerate,
            CacheAction::LoadFreshCache,
            CacheAction::Fail
        ]
    );
}

#[test]
fn failed_profiling_run_is_fatal() {
    let events = [CacheEvent::Begin, probed(None, at(200, 0)), CacheEvent::Regenerated(false)];
    assert_eq!(drive(StatsMode::Schema, false, &events)[2], CacheAction::Fail);
}

#[test]
fn modes_without_profiles_return_empty() {
    let stale = [CacheEvent::Begin, probed(None, at(200, 0))];
    let current = [CacheEvent::Begin, probed(Some(at(300, 0)), at(200, 0))];
    assert_eq!(drive(StatsMode::NoStats, false, &stale)[1], CacheAction::ReturnEmpty);
    assert_eq!(drive(StatsMode::NoStats, false, &current)[1], CacheAction::ReturnEmpty);
    assert_eq!(drive(StatsMode::Frequency, false, &stale)[1], CacheAction::ReturnEmpty);
    assert_eq!(drive(StatsMode::Frequency, false, &current)[1], CacheAction::LoadCache);
}

#[test]
fn cache_event_out_of_turn_is_rejected() {
    assert_eq!(drive(StatsMode::Schema, false, &[CacheEvent::Loaded(true)]), vec![CacheAction::Reject]);
    let events = [CacheEvent::Begin, CacheEvent::Begin];
    assert_eq!(drive(StatsMode::Schema, false, &events)[1], CacheAction::Reject);
}

#[test]
fn index_shifts_offsets_by_the_leading_column() {
    let columns: Vec<String> =
        ["field", "type", "sum", "min", "max", "nullcount"].iter().map(|s| s.to_string()).collect();
    let index = build_stats_index(&columns);
    assert_eq!(index.len(), 5);
    assert_eq!(index.get("field"), None);
    assert_eq!(index["type"], 0);
    assert_eq!(index["sum"], 1);
    assert_eq!(index["min"], 2);
    assert_eq!(index["max"], 3);
    assert_eq!(index["nullcount"], 4);
}

#[test]
fn index_gives_the_leading_column_no_offset() {
    let columns: Vec<String> = ["type", "min", "field", "max"].iter().map(|s| s.to_string()).collect();
    let index = build_stats_index(&columns);
    assert_eq!(index.get("type"), None);
    assert_eq!(index["min"], 0);
    assert_eq!(index.get("field"), None);
    assert_eq!(index["max"], 2);
    assert!(build_stats_index(&Vec::new()).is_empty());
}

#[test]
fn profile_is_read_through_the_index() {
    let columns: Vec<String> =
        ["field", "type", "min", "max", "min_length", "max_length", "nullcount", "cardinality"]
            .iter()
            .map(|s| s.to_string())
            .collect();
    let index = build_stats_index(&columns);
    let record: Vec<String> = ["Integer", "1", "9", "1", "1", "4", "+9"].iter().map(|s| s.to_string()).collect();
    let profile = ColumnProfile::from_record(&record, &index).unwrap();
    assert_eq!(profile.field_type, "Integer");
    assert_eq!(profile.min.as_deref(), Some("1"));
    assert_eq!(profile.max.as_deref(), Some("9"));
    assert_eq!(profile.min_length.as_deref(), Some("1"));
    assert_eq!(profile.max_length.as_deref(), Some("1"));
    assert_eq!(profile.null_count, 4);
    assert_eq!(profile.cardinality, 9);
    assert!(ColumnProfile::from_record(&Vec::new(), &index).is_none());
    let overflow: Vec<String> =
        ["String", "", "", "", "", "99999999999999999999999", " 3"].iter().map(|s| s.to_string()).collect();
    let odd = ColumnProfile::from_record(&overflow, &index).unwrap();
    assert_eq!(odd.null_count, 0);
    assert_eq!(odd.cardinality, 0);
}

#[test]
fn type_names_are_read_exactly() {
    assert_eq!(column_kind("String"), ColumnKind::Text);
    assert_eq!(column_kind("Integer"), ColumnKind::Integer);
    assert_eq!(column_kind("Float"), ColumnKind::Float);
    assert_eq!(column_kind("NULL"), ColumnKind::Null);
    assert_eq!(column_kind("Date"), ColumnKind::Date);
    assert_eq!(column_kind("DateTime"), ColumnKind::DateTime);
    assert_eq!(column_kind("string"), ColumnKind::Other);
    assert_eq!(column_kind(""), ColumnKind::Other);
}

#[test]
fn jobs_stay_within_the_processing_units() {
    assert_eq!(njobs(None, 8), 8);
    assert_eq!(njobs(Some(3), 8), 3);
    assert_eq!(njobs(Some(8), 8), 8);
    assert_eq!(njobs(Some(0), 8), 8);
    assert_eq!(njobs(Some(9), 8), 8);
}

#[test]
fn schema_profiling_asks_for_every_statistic() {
    let request = profiling_request(&run_options(), StatsMode::Schema, "/tmp/out.stats.csv", 8);
    assert_eq!(request.jobs, 7);
    assert_eq!(
        profiling_arguments(&request),
        vec![
            "stats",
            "data.csv",
            "--infer-dates",
            "--dates-whitelist",
            "date,time",
            "--round",
            "4",
            "--cardinality",
            "--output",
            "/tmp/out.stats.csv",
            "--stats-binout",
            "--force",
            "--jobs",
            "7"
        ]
    );
}

#[test]
fn frequency_profiling_asks_for_cardinality_only() {
    let mut options = run_options();
    options.arg_input = None;
    options.flag_prefer_dmy = true;
    options.flag_no_headers = true;
    options.flag_delimiter = Some(b'\t');
    options.flag_memcheck = true;
    options.flag_jobs = Some(2);
    let request = profiling_request(&options, StatsMode::FrequencyForceStats, "out.csv", 8);
    assert_eq!(
        profiling_arguments(&request),
        vec![
            "stats",
            "-",
            "--cardinality",
            "--stats-binout",
            "--output",
            "out.csv",
            "--prefer-dmy",
            "--no-headers",
            "--delimiter",
            "\t",
            "--memcheck",
            "--jobs",
            "2"
        ]
    );
}
