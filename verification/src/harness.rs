//! What the demonstration program decides between its runs against a pool:
//! which suites to run, how each worker is configured, what a stream brought
//! and how latencies are binned.

use rand::Rng;
use vstd::prelude::*;
use crate::config::PythonConfig;
use crate::dispatch::ExecutionError;
use crate::messages::{BenchMessage, TestResponse};

verus! {

/// Workers in the pool of an ordinary suite.
pub const POOL_SIZE: usize = 4;

/// Workers in the pool of the streaming throughput suite.
pub const STREAMING_THROUGHPUT_POOL_SIZE: usize = 100;

/// Workers in the pool of the benchmark suite.
pub const BENCH_POOL_SIZE: usize = 1000;

/// The least pause, in milliseconds, that a benchmark request asks for.
pub const MIN_SLEEP_MS: u64 = 10;

/// The longest pause, in milliseconds, that a benchmark request asks for.
pub const MAX_SLEEP_MS: u64 = 10;

/// The width of a latency bin in nanoseconds: 20 milliseconds. The first five
/// bins end at 20, 40, 60, 80 and 100 milliseconds; the sixth has no end.
pub const BIN_WIDTH_NANOS: u64 = 20_000_000;

/// The number of latency bins.
pub const BIN_COUNT: usize = 6;

/// The runs of the demonstration program.
#[derive(Debug, Clone, Copy, PartialEq, Eq, Structural)]
pub enum Suite {
    Sync,
    Async,
    Trader,
    Bench,
    Streaming,
    StreamingThroughput,
    StreamingErrors,
    /// A module that does not exist: the pool must not come up.
    InvalidModule,
    /// A function that does not exist: the pool must not come up.
    InvalidFunction,
    /// A pool whose interpreter paths are wrong: the pool must not come up.
    InvalidPath,
}

/// Which runs the command line asks for.
#[derive(Debug, Clone, Copy, PartialEq, Eq, Structural)]
pub struct SuiteSelection {
    pub sync: bool,
    pub asynchronous: bool,
    pub trader: bool,
    pub bench: bool,
    /// The runs with invalid configurations; only on request.
    pub module: bool,
    pub streaming: bool,
    pub streaming_throughput: bool,
    pub streaming_errors: bool,
    /// Print the usage and run nothing.
    pub help: bool,
}

/// Whether some argument is the word `word`.
pub open spec fn names(args: Seq<String>, word: Seq<char>) -> bool {
    exists|i: int| 0 <= i < args.len() && (#[trigger] args[i])@ == word
}

/// The selection that the arguments `args` ask for. The first argument is
/// the program's own name; with nothing behind it every run but the one on
/// request is selected.
pub open spec fn selection_of(args: Seq<String>) -> SuiteSelection {
    let all = args.len() == 1;
    SuiteSelection {
        sync: all || names(args, "sync"@),
        asynchronous: all || names(args, "async"@),
        trader: all || names(args, "trader"@),
        bench: all || names(args, "bench"@),
        module: names(args, "module"@),
        streaming: all || names(args, "streaming"@),
        streaming_throughput: all || names(args, "streaming-throughput"@),
        streaming_errors: all || names(args, "streaming-errors"@),
        help: names(args, "--help"@) || names(args, "-h"@),
    }
}

/// Whether some argument is the word `word`.
fn has_word(args: &Vec<String>, word: &str) -> (found: bool)
    ensures
        found == names(args@, word@),
{
    let wanted: String = word.to_owned();
    let mut at: usize = 0;
    while at < args.len()
        invariant
            at <= args@.len(),
            wanted@ == word@,
            forall|i: int| 0 <= i < at ==> (#[trigger] args@[i])@ != word@,
        decreases args@.len() - at,
    {
        if args[at] == wanted {
            return true;
        }
        at = at + 1;
    }
    false
}

/// Reads the command line.
pub fn select_suites(args: &Vec<String>) -> (selection: SuiteSelection)
    ensures
        selection == selection_of(args@),
{
    let all: bool = args.len() == 1;
    SuiteSelection {
        sync: all || has_word(args, "sync"),
        asynchronous: all || has_word(args, "async"),
        trader: all || has_word(args, "trader"),
        bench: all || has_word(args, "bench"),
        module: has_word(args, "module"),
        streaming: all || has_word(args, "streaming"),
        streaming_throughput: all || has_word(args, "streaming-throughput"),
        streaming_errors: all || has_word(args, "streaming-errors"),
        help: has_word(args, "--help") || has_word(args, "-h"),
    }
}

/// The module that the workers of `suite` import.
pub open spec fn module_of(suite: Suite) -> Seq<char> {
    match suite {
        Suite::Sync | Suite::InvalidFunction | Suite::InvalidPath => "logic"@,
        Suite::Async => "logic_async"@,
        Suite::Trader => "dspy_trader"@,
        Suite::Bench => "bench_async"@,
        Suite::Streaming | Suite::StreamingThroughput | Suite::StreamingErrors => "logic_streaming"@,
        Suite::InvalidModule => "non_existent_module"@,
    }
}

/// The function that the workers of `suite` call.
pub open spec fn function_of(suite: Suite) -> Seq<char> {
    match suite {
        Suite::Sync | Suite::Trader | Suite::InvalidModule | Suite::InvalidPath => "handle_message"@,
        Suite::Async => "handle_message_async"@,
        Suite::Bench => "handle_bench_message"@,
        Suite::Streaming | Suite::StreamingThroughput | Suite::StreamingErrors => "handle_message_streaming"@,
        Suite::InvalidFunction => "non_existent_function"@,
    }
}

/// The file of the module of `suite`.
pub open spec fn file_of(suite: Suite) -> Seq<char> {
    match suite {
        Suite::Sync | Suite::InvalidFunction | Suite::InvalidPath => "crates/kameo-snake-testing/python/logic.py"@,
        Suite::Async => "crates/kameo-snake-testing/python/logic_async.py"@,
        Suite::Trader => "crates/kameo-snake-testing/python/dspy_trader.py"@,
        Suite::Bench => "crates/kameo-snake-testing/python/bench_async.py"@,
        Suite::Streaming | Suite::StreamingThroughput | Suite::StreamingErrors => "crates/kameo-snake-testing/python/logic_streaming.py"@,
        Suite::InvalidModule => "crates/kameo-snake-testing/python/non_existent_module.py"@,
    }
}

/// Whether the workers of `suite` call an asynchronous function.
pub open spec fn is_async_suite(suite: Suite) -> bool {
    match suite {
        Suite::Sync | Suite::InvalidModule | Suite::InvalidFunction | Suite::InvalidPath => false,
        _ => true,
    }
}

/// The number of workers in the pool of `suite`.
pub open spec fn pool_size_of(suite: Suite) -> usize {
    match suite {
        Suite::StreamingThroughput => STREAMING_THROUGHPUT_POOL_SIZE,
        Suite::Bench => BENCH_POOL_SIZE,
        _ => POOL_SIZE,
    }
}

/// The configuration of the workers of `suite`, which search `python_path`.
pub fn config_for(suite: Suite, python_path: Vec<String>) -> (config: PythonConfig)
    ensures
        config.python_path == python_path,
        config.module_name@ == module_of(suite),
        config.function_name@ == function_of(suite),
        config.env_vars@ == Seq::<(String, String)>::empty(),
        config.is_async == is_async_suite(suite),
        config.module_file@ == file_of(suite),
{
    let (module, function, file, is_async): (&str, &str, &str, bool) = match suite {
        Suite::Sync | Suite::InvalidPath => (
            "logic",
            "handle_message",
            "crates/kameo-snake-testing/python/logic.py",
            false,
        ),
        Suite::InvalidFunction => (
            "logic",
            "non_existent_function",
            "crates/kameo-snake-testing/python/logic.py",
            false,
        ),
        Suite::InvalidModule => (
            "non_existent_module",
            "handle_message",
            "crates/kameo-snake-testing/python/non_existent_module.py",
            false,
        ),
        Suite::Async => (
            "logic_async",
            "handle_message_async",
            "crates/kameo-snake-testing/python/logic_async.py",
            true,
        ),
        Suite::Trader => (
            "dspy_trader",
            "handle_message",
            "crates/kameo-snake-testing/python/dspy_trader.py",
            true,
        ),
        Suite::Bench => (
            "bench_async",
            "handle_bench_message",
            "crates/kameo-snake-testing/python/bench_async.py",
            true,
        ),
        Suite::Streaming | Suite::StreamingThroughput | Suite::StreamingErrors => (
            "logic_streaming",
            "handle_message_streaming",
            "crates/kameo-snake-testing/python/logic_streaming.py",
            true,
        ),
    };
    PythonConfig {
        python_path,
        module_name: module.to_owned(),
        function_name: function.to_owned(),
        env_vars: Vec::new(),
        is_async,
        module_file: file.to_owned(),
    }
}

/// The number of workers in the pool of `suite`.
pub fn pool_size_for(suite: Suite) -> (size: usize)
    ensures
        size == pool_size_of(suite),
{
    match suite {
        Suite::StreamingThroughput => STREAMING_THROUGHPUT_POOL_SIZE,
        Suite::Bench => BENCH_POOL_SIZE,
        _ => POOL_SIZE,
    }
}

/// What the reader of a stream of demonstration replies has seen.
#[derive(Debug, Clone, PartialEq, Eq)]
pub struct StreamSummary {
    /// Index and value of every item, in the order they came.
    pub items: Vec<(u32, u32)>,
    /// Whether the stream reported an error of its producer.
    pub error_received: bool,
}

/// The items that a reader collects from `results`: every item up to the
/// first reported error or failed pull; replies of other kinds are passed over.
pub open spec fn items_of(results: Seq<Result<TestResponse, ExecutionError>>) -> Seq<(u32, u32)>
    decreases results.len(),
{
    if results.len() == 0 {
        Seq::empty()
    } else {
        match results[0] {
            Ok(TestResponse::StreamItem { index, value }) => seq![(index, value)] + items_of(
                results.drop_first(),
            ),
            Ok(TestResponse::StreamError { .. }) => Seq::empty(),
            Ok(_) => items_of(results.drop_first()),
            Err(_) => Seq::empty(),
        }
    }
}

/// Whether a reader of `results` meets a reported error before a failed pull
/// or the end.
pub open spec fn meets_error(results: Seq<Result<TestResponse, ExecutionError>>) -> bool
    decreases results.len(),
{
    if results.len() == 0 {
        false
    } else {
        match results[0] {
            Ok(TestResponse::StreamError { .. }) => true,
            Ok(_) => meets_error(results.drop_first()),
            Err(_) => false,
        }
    }
}

/// Reads a stream of demonstration replies as its consumer does: items are
/// collected, a reported error is noted and ends the reading, a failed pull
/// ends it as well, and any other reply is passed over.
pub fn collect_stream(results: &Vec<Result<TestResponse, ExecutionError>>) -> (summary:
    StreamSummary)
    ensures
        summary.items@ == items_of(results@),
        summary.error_received == meets_error(results@),
{
    let mut items: Vec<(u32, u32)> = Vec::new();
    let mut at: usize = 0;
    assert(results@.skip(0) =~= results@);
    assert(items@ + items_of(results@) =~= items_of(results@));
    while at < results.len()
        invariant
            at <= results@.len(),
            items_of(results@) == items@ + items_of(results@.skip(at as int)),
            meets_error(results@) == meets_error(results@.skip(at as int)),
        decreases results@.len() - at,
    {
        let ghost rest = results@.skip(at as int);
        assert(rest[0] == results@[at as int]);
        assert(rest.drop_first() =~= results@.skip(at + 1));
        match &results[at] {
            Ok(TestResponse::StreamItem { index, value }) => {
                let ghost before = items@;
                items.push((*index, *value));
                assert(before + (seq![(*index, *value)] + items_of(rest.drop_first())) =~= items@
                    + items_of(rest.drop_first()));
            },
            Ok(TestResponse::StreamError { .. }) => {
                assert(items@ + Seq::<(u32, u32)>::empty() =~= items@);
                return StreamSummary { items, error_received: true };
            },
            Ok(_) => {},
            Err(_) => {
                assert(items@ + Seq::<(u32, u32)>::empty() =~= items@);
                return StreamSummary { items, error_received: false };
            },
        }
        at = at + 1;
    }
    assert(items@ + Seq::<(u32, u32)>::empty() =~= items@);
    StreamSummary { items, error_received: false }
}

/// The bin of a latency of `nanos` nanoseconds: bin `k` below five holds the
/// latencies from `20 k` up to but not including `20 (k + 1)` milliseconds,
/// bin five holds everything from 100 milliseconds on.
pub open spec fn bin_of(nanos: u64) -> int {
    if nanos / BIN_WIDTH_NANOS < 5 {
        (nanos / BIN_WIDTH_NANOS) as int
    } else {
        5
    }
}

/// How many of `latencies` fall into bin `bin`.
pub open spec fn count_in_bin(latencies: Seq<u64>, bin: int) -> nat
    decreases latencies.len(),
{
    if latencies.len() == 0 {
        0
    } else {
        count_in_bin(latencies.drop_last(), bin) + if bin_of(latencies.last()) == bin {
            1nat
        } else {
            0nat
        }
    }
}

/// No bin holds more latencies than there are.
pub proof fn lemma_count_in_bin_bound(latencies: Seq<u64>, bin: int)
    ensures
        count_in_bin(latencies, bin) <= latencies.len(),
    decreases latencies.len(),
{
    if latencies.len() > 0 {
        lemma_count_in_bin_bound(latencies.drop_last(), bin);
    }
}

/// The bin of a latency of `nanos` nanoseconds.
pub fn latency_bin(nanos: u64) -> (bin: usize)
    ensures
        bin == bin_of(nanos),
        bin < BIN_COUNT,
{
    let whole: u64 = nanos / BIN_WIDTH_NANOS;
    if whole < 5 {
        whole as usize
    } else {
        5
    }
}

/// Bins latencies given in nanoseconds: the result has six counts, one for
/// each bin, and every latency is counted in exactly its bin.
pub fn histogram(latencies: &Vec<u64>) -> (bins: Vec<usize>)
    ensures
        bins@.len() == BIN_COUNT,
        forall|bin: int| 0 <= bin < BIN_COUNT ==> (#[trigger] bins@[bin]) == count_in_bin(
            latencies@,
            bin,
        ),
{
    let mut bins: Vec<usize> = Vec::new();
    let mut made: usize = 0;
    while made < BIN_COUNT
        invariant
            made <= BIN_COUNT,
            bins@.len() == made,
            forall|bin: int| 0 <= bin < made ==> (#[trigger] bins@[bin]) == 0,
        decreases BIN_COUNT - made,
    {
        bins.push(0);
        made = made + 1;
    }
    let mut at: usize = 0;
    assert(latencies@.take(0) =~= Seq::<u64>::empty());
    while at < latencies.len()
        invariant
            at <= latencies@.len(),
            bins@.len() == BIN_COUNT,
            forall|bin: int| 0 <= bin < BIN_COUNT ==> (#[trigger] bins@[bin]) == count_in_bin(
                latencies@.take(at as int),
                bin,
            ),
        decreases latencies@.len() - at,
    {
        let bin: usize = latency_bin(latencies[at]);
        proof {
            let longer = latencies@.take(at + 1);
            assert(longer.drop_last() =~= latencies@.take(at as int));
            assert(longer.last() == latencies@[at as int]);
            lemma_count_in_bin_bound(latencies@.take(at as int), bin as int);
        }
        let count: usize = bins[bin];
        bins.set(bin, count + 1);
        at = at + 1;
    }
    assert(latencies@.take(at as int) =~= latencies@);
    bins
}

/// Draws a number from `low` to `high`, both included.
///
/// Calls `gen_range` of `rand` on the thread's generator with the inclusive
/// range. That function panics on an empty range, which the precondition
/// leaves out, and otherwise returns a member of the range; which one is
/// left to chance. Nothing of this is proved here: the contract is taken
/// from that crate. The thread's generator itself panics where the operating
/// system gives it no seed, which no precondition can rule out.
#[verifier::external_body]
fn draw_between(low: u64, high: u64) -> (value: u64)
    requires
        low <= high,
    ensures
        low <= value <= high,
{
    rand::thread_rng().gen_range(low..=high)
}

/// A pause in milliseconds, drawn at random from `low` to `high`, both
/// included; `None` exactly where `low` is above `high`.
pub fn sleep_between(low: u64, high: u64) -> (pause: Option<u64>)
    ensures
        pause is Some <==> low <= high,
        pause matches Some(ms) ==> low <= ms <= high,
{
    if low <= high {
        Some(draw_between(low, high))
    } else {
        None
    }
}

/// The benchmark request number `id` with the given pauses.
pub fn bench_message_with(id: u64, py_sleep_ms: u64, rust_sleep_ms: u64) -> (message: BenchMessage)
    ensures
        message == (BenchMessage { id, py_sleep_ms, rust_sleep_ms }),
{
    BenchMessage { id, py_sleep_ms, rust_sleep_ms }
}

/// The benchmark request number `id`, with both pauses drawn at random from
/// `MIN_SLEEP_MS` to `MAX_SLEEP_MS`.
pub fn bench_message(id: u64) -> (message: BenchMessage)
    ensures
        message.id == id,
        MIN_SLEEP_MS <= message.py_sleep_ms <= MAX_SLEEP_MS,
        MIN_SLEEP_MS <= message.rust_sleep_ms <= MAX_SLEEP_MS,
{
    let py_sleep_ms: u64 = draw_between(MIN_SLEEP_MS, MAX_SLEEP_MS);
    let rust_sleep_ms: u64 = draw_between(MIN_SLEEP_MS, MAX_SLEEP_MS);
    bench_message_with(id, py_sleep_ms, rust_sleep_ms)
}

} // verus!
