//! The profiling run that regenerates the profile cache: its options, and
//! the arguments that they make.

use vstd::prelude::*;
use vstd::string::StringExecFns;
use crate::maps::texts;
use crate::schema::{Args, StatsMode};
use crate::text::{char_text, decimal_digits, decimal_text};

verus! {

/// The options of a profiling run.
#[derive(Clone, Debug)]
pub struct ProfilingRequest {
    /// The input path, or `-` for standard input.
    pub input: String,
    /// Every statistic of a schema is asked for: dates are inferred, numbers
    /// are rounded to four places, and the statistics are recomputed.
    pub everything: bool,
    pub dates_whitelist: String,
    /// Where the textual statistics table is written.
    pub output: String,
    pub prefer_dmy: bool,
    pub no_headers: bool,
    pub delimiter: Option<u8>,
    pub memcheck: bool,
    pub jobs: usize,
}

/// The mathematical value of a [`ProfilingRequest`].
pub struct ProfilingRequestView {
    pub input: Seq<char>,
    pub everything: bool,
    pub dates_whitelist: Seq<char>,
    pub output: Seq<char>,
    pub prefer_dmy: bool,
    pub no_headers: bool,
    pub delimiter: Option<u8>,
    pub memcheck: bool,
    pub jobs: usize,
}

impl View for ProfilingRequest {
    type V = ProfilingRequestView;

    open spec fn view(&self) -> ProfilingRequestView {
        ProfilingRequestView {
            input: self.input@,
            everything: self.everything,
            dates_whitelist: self.dates_whitelist@,
            output: self.output@,
            prefer_dmy: self.prefer_dmy,
            no_headers: self.no_headers,
            delimiter: self.delimiter,
            memcheck: self.memcheck,
            jobs: self.jobs,
        }
    }
}

/// The jobs that may run: the number asked for where it is between one and
/// the number of processing units, else that number.
pub open spec fn jobs_allowed(asked: Option<usize>, units: usize) -> usize {
    match asked {
        Some(jobs) => if 0 < jobs <= units { jobs } else { units },
        None => units,
    }
}

/// The jobs of a profiling run: of more than two jobs allowed, one is left to the caller.
pub open spec fn jobs_of_run(asked: Option<usize>, units: usize) -> usize {
    if jobs_allowed(asked, units) > 2 {
        (jobs_allowed(asked, units) - 1) as usize
    } else {
        jobs_allowed(asked, units)
    }
}

/// The number of jobs that may run on this machine.
pub fn njobs(flag_jobs: Option<usize>, units: usize) -> (r: usize)
    ensures
        r == jobs_allowed(flag_jobs, units),
{
    match flag_jobs {
        Some(jobs) => if jobs > 0 && jobs <= units { jobs } else { units },
        None => units,
    }
}

/// The text of an optional text, `-` where there is none.
pub open spec fn input_or_dash(input: Option<String>) -> Seq<char> {
    match input {
        Some(path) => path@,
        None => "-"@,
    }
}

/// The request that regenerates the cache for a lookup.
pub open spec fn request_of(args: Args, mode: StatsMode, output: Seq<char>, units: usize) -> ProfilingRequestView {
    ProfilingRequestView {
        input: input_or_dash(args.arg_input),
        everything: mode == StatsMode::Schema,
        dates_whitelist: args.flag_dates_whitelist@,
        output,
        prefer_dmy: args.flag_prefer_dmy,
        no_headers: args.flag_no_headers,
        delimiter: args.flag_delimiter,
        memcheck: args.flag_memcheck,
        jobs: jobs_of_run(args.flag_jobs, units),
    }
}

/// Makes the request that regenerates the cache for a lookup.
pub fn profiling_request(args: &Args, mode: StatsMode, output: &str, units: usize) -> (r: ProfilingRequest)
    ensures
        r@ == request_of(*args, mode, output@, units),
{
    let allowed = njobs(args.flag_jobs, units);
    let jobs = if allowed > 2 { allowed - 1 } else { allowed };
    ProfilingRequest {
        input: match &args.arg_input {
            Some(path) => path.clone(),
            None => String::from_str("-"),
        },
        everything: mode == StatsMode::Schema,
        dates_whitelist: args.flag_dates_whitelist.clone(),
        output: String::from_str(output),
        prefer_dmy: args.flag_prefer_dmy,
        no_headers: args.flag_no_headers,
        delimiter: args.flag_delimiter,
        memcheck: args.flag_memcheck,
        jobs,
    }
}

/// The arguments that always stand first.
pub open spec fn leading_arguments(request: ProfilingRequestView) -> Seq<Seq<char>> {
    if request.everything {
        seq![
            "stats"@,
            request.input,
            "--infer-dates"@,
            "--dates-whitelist"@,
            request.dates_whitelist,
            "--round"@,
            "4"@,
            "--cardinality"@,
            "--output"@,
            request.output,
            "--stats-binout"@,
            "--force"@,
        ]
    } else {
        seq!["stats"@, request.input, "--cardinality"@, "--stats-binout"@, "--output"@, request.output]
    }
}

/// The arguments with a flag added where it is set.
pub open spec fn with_flag(arguments: Seq<Seq<char>>, set: bool, flag: Seq<char>) -> Seq<Seq<char>> {
    if set {
        arguments.push(flag)
    } else {
        arguments
    }
}

/// The arguments with the delimiter added where one is given.
pub open spec fn with_delimiter(arguments: Seq<Seq<char>>, delimiter: Option<u8>) -> Seq<Seq<char>> {
    match delimiter {
        Some(byte) => arguments.push("--delimiter"@).push(seq![byte as char]),
        None => arguments,
    }
}

/// The arguments of a profiling run.
pub open spec fn arguments_of(request: ProfilingRequestView) -> Seq<Seq<char>> {
    with_flag(
        with_delimiter(
            with_flag(
                with_flag(leading_arguments(request), request.prefer_dmy, "--prefer-dmy"@),
                request.no_headers,
                "--no-headers"@,
            ),
            request.delimiter,
        ),
        request.memcheck,
        "--memcheck"@,
    ).push("--jobs"@).push(decimal_digits(request.jobs as nat))
}

/// Adds one argument.
fn push_argument(arguments: &mut Vec<String>, argument: &str)
    ensures
        texts(final(arguments)@) == texts(old(arguments)@).push(argument@),
{
    arguments.push(String::from_str(argument));
    assert(texts(arguments@) =~= texts(old(arguments)@).push(argument@));
}

/// Writes the arguments of a profiling run.
pub fn profiling_arguments(request: &ProfilingRequest) -> (r: Vec<String>)
    ensures
        texts(r@) == arguments_of(request@),
{
    let mut arguments: Vec<String> = Vec::new();
    assert(texts(arguments@) =~= Seq::<Seq<char>>::empty());
    push_argument(&mut arguments, "stats");
    push_argument(&mut arguments, request.input.as_str());
    if request.everything {
        push_argument(&mut arguments, "--infer-dates");
        push_argument(&mut arguments, "--dates-whitelist");
        push_argument(&mut arguments, request.dates_whitelist.as_str());
        push_argument(&mut arguments, "--round");
        push_argument(&mut arguments, "4");
        push_argument(&mut arguments, "--cardinality");
        push_argument(&mut arguments, "--output");
        push_argument(&mut arguments, request.output.as_str());
        push_argument(&mut arguments, "--stats-binout");
        push_argument(&mut arguments, "--force");
    } else {
        push_argument(&mut arguments, "--cardinality");
        push_argument(&mut arguments, "--stats-binout");
        push_argument(&mut arguments, "--output");
        push_argument(&mut arguments, request.output.as_str());
    }
    assert(texts(arguments@) =~= leading_arguments(request@));
    if request.prefer_dmy {
        push_argument(&mut arguments, "--prefer-dmy");
    }
    if request.no_headers {
        push_argument(&mut arguments, "--no-headers");
    }
    match request.delimiter {
        Some(byte) => {
            push_argument(&mut arguments, "--delimiter");
            let delimiter = char_text(byte as char);
            push_argument(&mut arguments, delimiter.as_str());
        },
        None => {},
    }
    if request.memcheck {
        push_argument(&mut arguments, "--memcheck");
    }
    push_argument(&mut arguments, "--jobs");
    let jobs = decimal_text(request.jobs as u64);
    push_argument(&mut arguments, jobs.as_str());
    arguments
}

} // verus!
