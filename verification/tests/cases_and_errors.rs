use kameo_snake_handler::callback::CallbackError;
use kameo_snake_handler::cases::{
    basic_cases, callback_case, error_cases, first_meets, invalid_config_cases, meets,
    rapid_fire_cases, stream_meets, streaming_cases, Expectation, FirstPull, StreamExpectation,
};
use kameo_snake_handler::channel::ChannelError;
use kameo_snake_handler::dispatch::ExecutionError;
use kameo_snake_handler::error::{Error, Reach};
use kameo_snake_handler::handshake::HandshakeFailure;
use kameo_snake_handler::harness::{StreamSummary, Suite};
use kameo_snake_handler::messages::{TestMessage, TestResponse};
use kameo_snake_handler::pool::{PoolSpawnError, StartError};
use kameo_snake_handler::stream::StreamProtocolError;

fn failure() -> Result<TestResponse, ExecutionError> {
    Err(ExecutionError::CallError { function: "f".to_string(), message: "m".to_string() })
}

fn summary(values: &[u32], error_received: bool) -> StreamSummary {
    StreamSummary {
        items: values.iter().enumerate().map(|(n, v)| (n as u32, *v)).collect(),
        error_received,
    }
}

#[test]
fn basic_cases_are_the_six_requests() {
    let cases = basic_cases();
    assert_eq!(
        cases,
        vec![
            (TestMessage::CalculatePower { count: 100 }, Expectation::Power),
            (
                TestMessage::CalculateCategoryBonus {
                    category_name: "UnknownCategory".to_string(),
                    base_power: 0
                },
                Expectation::Failure
            ),
            (TestMessage::CalculatePower { count: 0 }, Expectation::Failure),
            (TestMessage::CalculatePower { count: u32::MAX }, Expectation::Failure),
            (
                TestMessage::CalculateCompetitionResult { attacker_power: 1000, defender_power: 500 },
                Expectation::CompetitionResult
            ),
            (TestMessage::CalculateReward { currency: 100, points: 5 }, Expectation::RewardResult),
        ]
    );
}

#[test]
fn callback_case_expects_one_more_than_it_sends() {
    assert_eq!(
        callback_case(),
        (
            TestMessage::CallbackRoundtrip { value: 42 },
            Expectation::CallbackRoundtrip { value: 43 }
        )
    );
}

#[test]
fn rapid_fire_asks_for_nine_powers() {
    let expected: Vec<TestMessage> =
        (1..10u32).map(|i| TestMessage::CalculatePower { count: i * 100 }).collect();
    assert_eq!(rapid_fire_cases(), expected);
}

#[test]
fn streaming_cases_are_the_five_streams() {
    assert_eq!(
        streaming_cases(),
        vec![
            (TestMessage::StreamFibonacci { count: 10 }, StreamExpectation::Fibonacci { count: 10 }),
            (
                TestMessage::StreamRandomNumbers { count: 5, max_value: 100 },
                StreamExpectation::Within { count: 5, low: 1, high: 100 }
            ),
            (
                TestMessage::StreamWithDelays { count: 3, delay_ms: 50 },
                StreamExpectation::Count { count: 3 }
            ),
            (
                TestMessage::StreamWithErrors { count: 5, error_at: Some(2) },
                StreamExpectation::ErrorAfter { count: 2 }
            ),
            (TestMessage::StreamLargeDataset { count: 10 }, StreamExpectation::Count { count: 10 }),
        ]
    );
}

#[test]
fn error_cases_are_the_three_streams() {
    assert_eq!(
        error_cases(),
        vec![
            (TestMessage::StreamWithErrors { count: 5, error_at: Some(0) }, FirstPull::Error),
            (TestMessage::StreamWithErrors { count: 5, error_at: Some(4) }, FirstPull::Item),
            (TestMessage::StreamWithErrors { count: 3, error_at: None }, FirstPull::Item),
        ]
    );
}

#[test]
fn invalid_configurations_get_their_seconds() {
    assert_eq!(
        invalid_config_cases(),
        vec![(Suite::InvalidModule, 31), (Suite::InvalidFunction, 31), (Suite::InvalidPath, 32)]
    );
}

#[test]
fn reply_meets_the_expectation_of_its_kind_only() {
    let power = Ok(TestResponse::Power { power: 7 });
    let won = Ok(TestResponse::CompetitionResult { victory: true });
    let reward = Ok(TestResponse::RewardResult { total_currency: 1, bonus_currency: 2 });
    let round = Ok(TestResponse::CallbackRoundtripResult { value: 43 });
    assert!(meets(Expectation::Power, &power));
    assert!(!meets(Expectation::Power, &won));
    assert!(!meets(Expectation::Power, &failure()));
    assert!(meets(Expectation::CompetitionResult, &won));
    assert!(!meets(Expectation::CompetitionResult, &reward));
    assert!(meets(Expectation::RewardResult, &reward));
    assert!(!meets(Expectation::RewardResult, &power));
    assert!(meets(Expectation::CallbackRoundtrip { value: 43 }, &round));
    assert!(!meets(Expectation::CallbackRoundtrip { value: 42 }, &round));
    assert!(!meets(Expectation::CallbackRoundtrip { value: 43 }, &power));
    assert!(meets(Expectation::Failure, &failure()));
    assert!(!meets(Expectation::Failure, &power));
}

#[test]
fn stream_meets_what_it_is_held_to() {
    let fibonacci = summary(&[0, 1, 1, 2, 3, 5, 8, 13, 21, 34], false);
    assert!(stream_meets(StreamExpectation::Fibonacci { count: 10 }, &fibonacci));
    assert!(!stream_meets(StreamExpectation::Fibonacci { count: 9 }, &fibonacci));
    assert!(!stream_meets(
        StreamExpectation::Fibonacci { count: 10 },
        &summary(&[0, 1, 2, 3, 4, 5, 6, 7, 8, 9], false)
    ));
    assert!(stream_meets(StreamExpectation::Fibonacci { count: 2 }, &summary(&[0, 1], false)));
    assert!(!stream_meets(StreamExpectation::Fibonacci { count: 2 }, &summary(&[1, 1], false)));
    assert!(stream_meets(StreamExpectation::Fibonacci { count: 0 }, &summary(&[], false)));

    let random = summary(&[1, 100, 50, 7, 99], false);
    assert!(stream_meets(StreamExpectation::Within { count: 5, low: 1, high: 100 }, &random));
    assert!(!stream_meets(StreamExpectation::Within { count: 5, low: 2, high: 100 }, &random));
    assert!(!stream_meets(StreamExpectation::Within { count: 5, low: 1, high: 99 }, &random));
    assert!(!stream_meets(StreamExpectation::Within { count: 4, low: 1, high: 100 }, &random));

    assert!(stream_meets(StreamExpectation::Count { count: 5 }, &random));
    assert!(!stream_meets(StreamExpectation::Count { count: 6 }, &random));

    assert!(stream_meets(StreamExpectation::ErrorAfter { count: 2 }, &summary(&[0, 1], true)));
    assert!(!stream_meets(StreamExpectation::ErrorAfter { count: 2 }, &summary(&[0, 1], false)));
    assert!(!stream_meets(StreamExpectation::ErrorAfter { count: 2 }, &summary(&[0], true)));
}

#[test]
fn first_pull_is_an_item_or_an_error() {
    let item = Some(Ok(TestResponse::StreamItem { index: 0, value: 0 }));
    let error = Some(Ok(TestResponse::StreamError { index: 0, error: "e".to_string() }));
    assert!(first_meets(FirstPull::Item, &item));
    assert!(!first_meets(FirstPull::Item, &error));
    assert!(first_meets(FirstPull::Error, &error));
    assert!(!first_meets(FirstPull::Error, &item));
    for other in [None, Some(failure()), Some(Ok(TestResponse::Power { power: 1 }))] {
        assert!(!first_meets(FirstPull::Item, &other));
        assert!(!first_meets(FirstPull::Error, &other));
    }
}

#[test]
fn failures_reach_as_far_as_their_class_says() {
    assert_eq!(Error::ConnectionError.reach(), Reach::Connection);
    assert_eq!(Error::TimeoutError.reach(), Reach::Operation);
    assert_eq!(Error::from_handshake(HandshakeFailure::FingerprintMismatch).reach(), Reach::Pool);
    assert_eq!(Error::from_spawn(PoolSpawnError::LaunchFailed { worker: 2 }).reach(), Reach::Pool);
    assert_eq!(Error::from_callback(CallbackError::NoHandler).reach(), Reach::Operation);
    assert_eq!(
        Error::from_violation(StreamProtocolError::OutOfOrder { expected: 1, received: 3 }).reach(),
        Reach::Operation
    );
    for error in [
        ExecutionError::SerializationError { message: "s".to_string() },
        ExecutionError::DeserializationError { message: "d".to_string() },
        ExecutionError::CallError { function: "f".to_string(), message: "c".to_string() },
    ] {
        assert_eq!(Error::from_execution(error).reach(), Reach::Operation);
    }
}

#[test]
fn failures_keep_what_they_were_made_of() {
    assert!(matches!(
        Error::from_execution(ExecutionError::CallError {
            function: "f".to_string(),
            message: "c".to_string()
        }),
        Error::CallError { function, message } if function == "f" && message == "c"
    ));
    assert!(matches!(
        Error::from_execution(ExecutionError::SerializationError { message: "s".to_string() }),
        Error::SerializationError { message } if message == "s"
    ));
    assert!(matches!(
        Error::from_execution(ExecutionError::DeserializationError { message: "d".to_string() }),
        Error::DeserializationError { message } if message == "d"
    ));
    assert!(matches!(Error::from_start(StartError::NoReadyWorker), Error::ConnectionError));
    assert!(matches!(
        Error::from_start(StartError::IdsExhausted { worker: 1 }),
        Error::ConnectionError
    ));
    assert!(matches!(Error::from_channel(ChannelError::Closed), Error::ConnectionError));
    assert!(matches!(Error::from_channel(ChannelError::IdsExhausted), Error::ConnectionError));
    assert!(matches!(
        Error::from_spawn(PoolSpawnError::SetupFailed { worker: 3 }),
        Error::PoolSpawnError { cause: PoolSpawnError::SetupFailed { worker: 3 } }
    ));
    assert!(matches!(
        Error::from_handshake(HandshakeFailure::TimedOut),
        Error::HandshakeError { reason: HandshakeFailure::TimedOut }
    ));
    assert!(matches!(
        Error::from_callback(CallbackError::TimedOut),
        Error::CallbackError { failure: CallbackError::TimedOut }
    ));
}

#[test]
fn throughput_counts_items_and_reported_errors() {
    let pulled = vec![
        Ok(TestResponse::StreamItem { index: 0, value: 1 }),
        Ok(TestResponse::StreamComplete { total_items: 1 }),
        Ok(TestResponse::StreamError { index: 1, error: "e".to_string() }),
        failure(),
        Ok(TestResponse::StreamItem { index: 2, value: 3 }),
        Ok(TestResponse::Power { power: 1 }),
    ];
    assert_eq!(kameo_snake_handler::cases::count_throughput(&pulled), 3);
    assert_eq!(kameo_snake_handler::cases::count_throughput(&vec![]), 0);
}

#[test]
fn trader_is_asked_for_a_widget() {
    assert_eq!(
        kameo_snake_handler::cases::trader_case(),
        kameo_snake_handler::messages::TraderMessage::OrderDetails {
            item: "widget".to_string(),
            currency: 42
        }
    );
    let done = Ok(kameo_snake_handler::messages::TraderResponse::OrderResult {
        result: "done".to_string(),
    });
    assert!(kameo_snake_handler::cases::trader_meets(&done));
    let failed: Result<kameo_snake_handler::messages::TraderResponse, ExecutionError> =
        Err(ExecutionError::SerializationError { message: "m".to_string() });
    assert!(!kameo_snake_handler::cases::trader_meets(&failed));
}
