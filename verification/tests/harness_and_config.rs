use kameo_snake_handler::config::{
    choose_first_usable, parse_protocol, plan_exporters, ExporterPlan, OtlpProtocol,
    TelemetryError, TelemetryExportConfig,
};
use kameo_snake_handler::dispatch::ExecutionError;
use kameo_snake_handler::harness::{
    bench_message, bench_message_with, collect_stream, config_for, histogram, latency_bin,
    pool_size_for, select_suites, sleep_between, Suite, SuiteSelection,
};
use kameo_snake_handler::messages::{
    BenchCallback, BenchCallbackReply, BenchMessage, BenchResponse, CountingCallbackHandler,
    TestCallbackHandler, TestCallbackMessage, TestError, TestMessage, TestResponse,
    TraderCallbackMessage, TraderMessage, TraderResponse,
};

fn args(words: &[&str]) -> Vec<String> {
    words.iter().map(|w| w.to_string()).collect()
}

fn item(index: u32, value: u32) -> Result<TestResponse, ExecutionError> {
    Ok(TestResponse::StreamItem { index, value })
}

#[test]
fn default_telemetry_has_every_exporter_on() {
    let config = TelemetryExportConfig::default();
    assert!(config.otlp_enabled);
    assert!(config.stdout_enabled);
    assert!(config.metrics_enabled);
}

#[test]
fn protocol_names_are_read_exactly() {
    assert_eq!(parse_protocol("grpc"), Some(OtlpProtocol::Grpc));
    assert_eq!(parse_protocol("http/protobuf"), Some(OtlpProtocol::HttpProtobuf));
    assert_eq!(parse_protocol("GRPC"), None);
    assert_eq!(parse_protocol("http"), None);
    assert_eq!(parse_protocol(""), None);
    assert_eq!(parse_protocol("grpc "), None);
}

#[test]
fn exporters_are_planned_from_the_switches_and_the_protocol() {
    let all = TelemetryExportConfig::default();
    assert_eq!(
        plan_exporters(all, None),
        Ok(ExporterPlan { otlp: Some(OtlpProtocol::Grpc), stdout: true, metrics: true })
    );
    assert_eq!(
        plan_exporters(all, Some("http/protobuf")),
        Ok(ExporterPlan { otlp: Some(OtlpProtocol::HttpProtobuf), stdout: true, metrics: true })
    );
    assert_eq!(plan_exporters(all, Some("thrift")), Err(TelemetryError::UnknownProtocol));
    let quiet =
        TelemetryExportConfig { otlp_enabled: false, stdout_enabled: true, metrics_enabled: false };
    assert_eq!(
        plan_exporters(quiet, Some("thrift")),
        Ok(ExporterPlan { otlp: None, stdout: true, metrics: false })
    );
}

#[test]
fn first_usable_candidate_is_chosen() {
    assert_eq!(choose_first_usable(&vec![]), None);
    assert_eq!(choose_first_usable(&vec![false, false]), None);
    assert_eq!(choose_first_usable(&vec![false, true, true]), Some(1));
    assert_eq!(choose_first_usable(&vec![true, false]), Some(0));
}

#[test]
fn no_arguments_select_every_run_but_the_invalid_ones() {
    assert_eq!(
        select_suites(&args(&["program"])),
        SuiteSelection {
            sync: true,
            asynchronous: true,
            trader: true,
            bench: true,
            module: false,
            streaming: true,
            streaming_throughput: true,
            streaming_errors: true,
            help: false,
        }
    );
}

#[test]
fn arguments_select_the_runs_they_name() {
    let none = SuiteSelection {
        sync: false,
        asynchronous: false,
        trader: false,
        bench: false,
        module: false,
        streaming: false,
        streaming_throughput: false,
        streaming_errors: false,
        help: false,
    };
    assert_eq!(select_suites(&args(&["program", "sync"])), SuiteSelection { sync: true, ..none });
    assert_eq!(
        select_suites(&args(&["program", "module", "async"])),
        SuiteSelection { module: true, asynchronous: true, ..none }
    );
    assert_eq!(
        select_suites(&args(&["program", "streaming-errors", "bench", "trader"])),
        SuiteSelection { streaming_errors: true, bench: true, trader: true, ..none }
    );
    assert_eq!(
        select_suites(&args(&["program", "streaming-throughput"])),
        SuiteSelection { streaming_throughput: true, ..none }
    );
    assert_eq!(select_suites(&args(&["program", "streaming"])), SuiteSelection { streaming: true, ..none });
    assert_eq!(select_suites(&args(&["program", "-h"])), SuiteSelection { help: true, ..none });
    assert_eq!(
        select_suites(&args(&["program", "sync", "--help"])),
        SuiteSelection { sync: true, help: true, ..none }
    );
    assert_eq!(select_suites(&args(&["program", "unknown"])), none);
    assert_eq!(select_suites(&args(&[])), none);
    assert_eq!(
        select_suites(&args(&["module"])),
        SuiteSelection { module: true, ..select_suites(&args(&["program"])) }
    );
}

#[test]
fn suites_are_configured_as_their_workers_need() {
    let path = args(&["site-packages", "python"]);
    let sync = config_for(Suite::Sync, path.clone());
    assert_eq!(sync.python_path, path);
    assert_eq!(sync.module_name, "logic");
    assert_eq!(sync.function_name, "handle_message");
    assert!(sync.env_vars.is_empty());
    assert!(!sync.is_async);
    assert_eq!(sync.module_file, "crates/kameo-snake-testing/python/logic.py");

    let expected = [
        (Suite::Async, "logic_async", "handle_message_async", true, "logic_async.py"),
        (Suite::Trader, "dspy_trader", "handle_message", true, "dspy_trader.py"),
        (Suite::Bench, "bench_async", "handle_bench_message", true, "bench_async.py"),
        (Suite::Streaming, "logic_streaming", "handle_message_streaming", true, "logic_streaming.py"),
        (Suite::StreamingThroughput, "logic_streaming", "handle_message_streaming", true, "logic_streaming.py"),
        (Suite::StreamingErrors, "logic_streaming", "handle_message_streaming", true, "logic_streaming.py"),
        (Suite::InvalidModule, "non_existent_module", "handle_message", false, "non_existent_module.py"),
        (Suite::InvalidFunction, "logic", "non_existent_function", false, "logic.py"),
        (Suite::InvalidPath, "logic", "handle_message", false, "logic.py"),
    ];
    for (suite, module, function, is_async, file) in expected {
        let config = config_for(suite, vec![]);
        assert_eq!(config.module_name, module);
        assert_eq!(config.function_name, function);
        assert_eq!(config.is_async, is_async);
        assert_eq!(config.module_file, format!("crates/kameo-snake-testing/python/{}", file));
        assert!(config.python_path.is_empty());
        assert!(config.env_vars.is_empty());
    }
}

#[test]
fn pools_have_the_size_of_their_suite() {
    assert_eq!(pool_size_for(Suite::Sync), 4);
    assert_eq!(pool_size_for(Suite::Streaming), 4);
    assert_eq!(pool_size_for(Suite::InvalidModule), 4);
    assert_eq!(pool_size_for(Suite::StreamingThroughput), 100);
    assert_eq!(pool_size_for(Suite::Bench), 1000);
}

#[test]
fn stream_is_collected_up_to_the_first_error() {
    let results = vec![
        item(0, 0),
        item(1, 1),
        Ok(TestResponse::StreamError { index: 2, error: "at 2".to_string() }),
        item(3, 2),
    ];
    let summary = collect_stream(&results);
    assert_eq!(summary.items, vec![(0, 0), (1, 1)]);
    assert!(summary.error_received);
}

#[test]
fn stream_without_an_error_is_collected_whole() {
    let fibonacci = [0u32, 1, 1, 2, 3, 5, 8, 13, 21, 34];
    let results: Vec<_> =
        fibonacci.iter().enumerate().map(|(n, v)| item(n as u32, *v)).collect();
    let summary = collect_stream(&results);
    assert_eq!(summary.items.len(), 10);
    assert_eq!(summary.items[0].1, 0);
    assert_eq!(summary.items[1].1, 1);
    assert_eq!(summary.items[2].1, 1);
    assert_eq!(summary.items[3].1, 2);
    assert!(!summary.error_received);
    let empty = collect_stream(&vec![]);
    assert!(empty.items.is_empty());
    assert!(!empty.error_received);
}

#[test]
fn other_replies_are_passed_over_and_a_failed_pull_ends_the_reading() {
    let results = vec![
        item(0, 5),
        Ok(TestResponse::StreamComplete { total_items: 1 }),
        Ok(TestResponse::Power { power: 3 }),
        item(1, 6),
        Err(ExecutionError::CallError { function: "f".to_string(), message: "m".to_string() }),
        item(2, 7),
        Ok(TestResponse::StreamError { index: 3, error: String::new() }),
    ];
    let summary = collect_stream(&results);
    assert_eq!(summary.items, vec![(0, 5), (1, 6)]);
    assert!(!summary.error_received);
}

#[test]
fn latencies_fall_into_bins_of_twenty_milliseconds() {
    assert_eq!(latency_bin(0), 0);
    assert_eq!(latency_bin(19_999_999), 0);
    assert_eq!(latency_bin(20_000_000), 1);
    assert_eq!(latency_bin(39_999_999), 1);
    assert_eq!(latency_bin(40_000_000), 2);
    assert_eq!(latency_bin(60_000_000), 3);
    assert_eq!(latency_bin(80_000_000), 4);
    assert_eq!(latency_bin(99_999_999), 4);
    assert_eq!(latency_bin(100_000_000), 5);
    assert_eq!(latency_bin(u64::MAX), 5);
}

#[test]
fn histogram_counts_every_latency_once() {
    assert_eq!(histogram(&vec![]), vec![0, 0, 0, 0, 0, 0]);
    let latencies = vec![
        1_000_000, 25_000_000, 19_000_000, 45_000_000, 120_000_000, 99_000_000, 5, 100_000_000,
        61_000_000,
    ];
    let bins = histogram(&latencies);
    assert_eq!(bins, vec![3, 1, 1, 1, 1, 2]);
    assert_eq!(bins.iter().sum::<usize>(), latencies.len());
}

#[test]
fn pause_is_drawn_from_the_range() {
    assert_eq!(sleep_between(7, 7), Some(7));
    assert_eq!(sleep_between(8, 7), None);
    assert_eq!(sleep_between(u64::MAX, 0), None);
    let mut seen_above_low = false;
    for _ in 0..2000 {
        let pause = sleep_between(20, 29).unwrap();
        assert!((20..=29).contains(&pause));
        seen_above_low |= pause > 20;
    }
    assert!(seen_above_low);
    let wide = sleep_between(0, u64::MAX);
    assert!(wide.is_some());
}

#[test]
fn bench_message_pauses_ten_milliseconds() {
    for id in [0u64, 1, 9999] {
        assert_eq!(bench_message(id), BenchMessage { id, py_sleep_ms: 10, rust_sleep_ms: 10 });
    }
    assert_eq!(
        bench_message_with(3, 11, 12),
        BenchMessage { id: 3, py_sleep_ms: 11, rust_sleep_ms: 12 }
    );
}

#[test]
fn default_message_asks_for_the_power_of_nothing() {
    assert_eq!(TestMessage::default(), TestMessage::CalculatePower { count: 0 });
}

#[test]
fn replies_are_their_own_value() {
    let power = TestResponse::Power { power: 9 };
    assert_eq!(power.clone().to_result(), Ok(power.clone()));
    assert_eq!(power.clone().into_value(), power);
    let order = TraderResponse::OrderResult { result: "done".to_string() };
    assert_eq!(order.clone().to_result(), Ok(order.clone()));
    assert_eq!(order.clone().into_value(), order);
    let bench = BenchResponse::CompetitionResult { victory: true };
    assert_eq!(bench.to_result(), Ok(bench));
    assert_eq!(bench.into_value(), bench);
    let answer = BenchCallbackReply { id: 4 };
    assert_eq!(answer.to_result(), Ok(answer));
    assert_eq!(answer.into_value(), answer);
}

#[test]
fn handlers_accept_their_callbacks() {
    let handler = TestCallbackHandler;
    assert!(handler.handle(TestCallbackMessage { value: 1 }).is_ok());
    assert!(handler.handle_trader(TraderCallbackMessage { value: 2 }).is_ok());
    assert!(handler.handle_bench(BenchCallback { id: 3, rust_sleep_ms: 4 }).is_ok());
    let mut counting = CountingCallbackHandler { counter: 0 };
    assert_eq!(counting.handle(BenchCallback { id: 1, rust_sleep_ms: 10 }), 10);
    assert_eq!(counting.handle(BenchCallback { id: 2, rust_sleep_ms: 25 }), 25);
    assert_eq!(counting.counter, 2);
    let mut full = CountingCallbackHandler { counter: usize::MAX };
    full.handle(BenchCallback { id: 1, rust_sleep_ms: 0 });
    assert_eq!(full.counter, 0);
}

#[test]
fn messages_hold_what_they_are_given() {
    let order = TraderMessage::OrderDetails { item: "widget".to_string(), currency: 42 };
    assert_eq!(order.clone(), order);
    let error = TestError::NotEnoughEntities { needed: 3, got: 1 };
    assert_ne!(error, TestError::UnknownCategory("x".to_string()));
    assert_ne!(TestError::InvalidPower("x".to_string()), TestError::UnknownCategory("x".to_string()));
    let failing = TestMessage::StreamWithErrors { count: 5, error_at: Some(2) };
    assert_ne!(failing, TestMessage::StreamWithErrors { count: 5, error_at: None });
}
