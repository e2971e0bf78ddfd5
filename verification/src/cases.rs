//! What the demonstration program asks of its workers and what it expects
//! back: the requests of every run, each with the reply it must bring.

use vstd::prelude::*;
use crate::dispatch::ExecutionError;
use crate::harness::{StreamSummary, Suite};
use crate::messages::{TestMessage, TestResponse, TraderMessage, TraderResponse};

verus! {

/// What the reply to a request must be.
#[derive(Debug, Clone, Copy, PartialEq, Eq, Structural)]
pub enum Expectation {
    /// A power, whatever its value.
    Power,
    /// The result of a competition, whoever won.
    CompetitionResult,
    /// A reward, whatever its size.
    RewardResult,
    /// The result of a round trip through a callback, with this value.
    CallbackRoundtrip { value: u32 },
    /// No reply: the request must fail.
    Failure,
}

/// What a stream must have brought.
#[derive(Debug, Clone, Copy, PartialEq, Eq, Structural)]
pub enum StreamExpectation {
    /// `count` items whose first values are 0, 1, 1, 2.
    Fibonacci { count: usize },
    /// `count` items with values from `low` to `high`.
    Within { count: usize, low: u32, high: u32 },
    /// `count` items.
    Count { count: usize },
    /// `count` items and then a reported error.
    ErrorAfter { count: usize },
}

/// What the first pull of a stream must bring.
#[derive(Debug, Clone, Copy, PartialEq, Eq, Structural)]
pub enum FirstPull {
    Item,
    Error,
}

/// Whether `reply` is what `expectation` asks for.
pub open spec fn is_met(expectation: Expectation, reply: Result<TestResponse, ExecutionError>) -> bool {
    match expectation {
        Expectation::Power => reply matches Ok(TestResponse::Power { .. }),
        Expectation::CompetitionResult => reply matches Ok(TestResponse::CompetitionResult { .. }),
        Expectation::RewardResult => reply matches Ok(TestResponse::RewardResult { .. }),
        Expectation::CallbackRoundtrip { value } => reply matches Ok(
            TestResponse::CallbackRoundtripResult { value: got },
        ) && got == value,
        Expectation::Failure => reply is Err,
    }
}

/// The first values of the Fibonacci sequence that a stream is held to.
pub open spec fn fibonacci_start() -> Seq<u32> {
    seq![0u32, 1u32, 1u32, 2u32]
}

/// Whether a stream that brought `items`, and a reported error or none, is
/// what `expectation` asks for.
pub open spec fn is_stream_met(
    expectation: StreamExpectation,
    items: Seq<(u32, u32)>,
    error_received: bool,
) -> bool {
    match expectation {
        StreamExpectation::Fibonacci { count } => items.len() == count && forall|i: int|
            0 <= i < items.len() && i < 4 ==> (#[trigger] items[i]).1 == fibonacci_start()[i],
        StreamExpectation::Within { count, low, high } => items.len() == count && forall|i: int|
            0 <= i < items.len() ==> low <= (#[trigger] items[i]).1 <= high,
        StreamExpectation::Count { count } => items.len() == count,
        StreamExpectation::ErrorAfter { count } => error_received && items.len() == count,
    }
}

/// Whether `first` is what `expected` asks of the first pull.
pub open spec fn is_first_met(
    expected: FirstPull,
    first: Option<Result<TestResponse, ExecutionError>>,
) -> bool {
    match expected {
        FirstPull::Item => first matches Some(Ok(TestResponse::StreamItem { .. })),
        FirstPull::Error => first matches Some(Ok(TestResponse::StreamError { .. })),
    }
}

/// Whether `reply` is what `expectation` asks for.
pub fn meets(expectation: Expectation, reply: &Result<TestResponse, ExecutionError>) -> (met: bool)
    ensures
        met == is_met(expectation, *reply),
{
    match expectation {
        Expectation::Power => match reply {
            Ok(TestResponse::Power { .. }) => true,
            _ => false,
        },
        Expectation::CompetitionResult => match reply {
            Ok(TestResponse::CompetitionResult { .. }) => true,
            _ => false,
        },
        Expectation::RewardResult => match reply {
            Ok(TestResponse::RewardResult { .. }) => true,
            _ => false,
        },
        Expectation::CallbackRoundtrip { value } => match reply {
            Ok(TestResponse::CallbackRoundtripResult { value: got }) => *got == value,
            _ => false,
        },
        Expectation::Failure => match reply {
            Ok(_) => false,
            Err(_) => true,
        },
    }
}

/// Whether every value of `items` lies from `low` to `high`.
fn all_within(items: &Vec<(u32, u32)>, low: u32, high: u32) -> (within: bool)
    ensures
        within == forall|i: int| 0 <= i < items@.len() ==> low <= (#[trigger] items@[i]).1 <= high,
{
    let mut at: usize = 0;
    while at < items.len()
        invariant
            at <= items@.len(),
            forall|i: int| 0 <= i < at ==> low <= (#[trigger] items@[i]).1 <= high,
        decreases items@.len() - at,
    {
        let value: u32 = items[at].1;
        if value < low || value > high {
            return false;
        }
        at = at + 1;
    }
    true
}

/// Whether the first values of `items` are those of the Fibonacci sequence.
fn starts_as_fibonacci(items: &Vec<(u32, u32)>) -> (starts: bool)
    ensures
        starts == forall|i: int|
            0 <= i < items@.len() && i < 4 ==> (#[trigger] items@[i]).1 == fibonacci_start()[i],
{
    let expected: [u32; 4] = [0, 1, 1, 2];
    let mut at: usize = 0;
    while at < items.len() && at < 4
        invariant
            at <= items@.len(),
            at <= 4,
            expected@ == fibonacci_start(),
            forall|i: int| 0 <= i < at ==> (#[trigger] items@[i]).1 == fibonacci_start()[i],
        decreases 4 - at,
    {
        if items[at].1 != expected[at] {
            return false;
        }
        at = at + 1;
    }
    true
}

/// Whether what a stream brought is what `expectation` asks for.
pub fn stream_meets(expectation: StreamExpectation, summary: &StreamSummary) -> (met: bool)
    ensures
        met == is_stream_met(expectation, summary.items@, summary.error_received),
{
    match expectation {
        StreamExpectation::Fibonacci { count } => summary.items.len() == count
            && starts_as_fibonacci(&summary.items),
        StreamExpectation::Within { count, low, high } => summary.items.len() == count
            && all_within(&summary.items, low, high),
        StreamExpectation::Count { count } => summary.items.len() == count,
        StreamExpectation::ErrorAfter { count } => summary.error_received && summary.items.len()
            == count,
    }
}

/// Whether `first` is what `expected` asks of the first pull.
pub fn first_meets(expected: FirstPull, first: &Option<Result<TestResponse, ExecutionError>>) -> (met:
    bool)
    ensures
        met == is_first_met(expected, *first),
{
    match expected {
        FirstPull::Item => match first {
            Some(Ok(TestResponse::StreamItem { .. })) => true,
            _ => false,
        },
        FirstPull::Error => match first {
            Some(Ok(TestResponse::StreamError { .. })) => true,
            _ => false,
        },
    }
}

/// Whether `cases` are the six requests that every worker is tried with,
/// synchronous or not: a power, an unknown category, no count, a count too
/// large, a competition and a reward.
pub open spec fn are_basic_cases(cases: Seq<(TestMessage, Expectation)>) -> bool {
    &&& cases.len() == 6
    &&& cases[0] == (TestMessage::CalculatePower { count: 100 }, Expectation::Power)
    &&& cases[1].0 matches TestMessage::CalculateCategoryBonus { category_name, base_power }
        && category_name@ == "UnknownCategory"@ && base_power == 0
    &&& cases[1].1 == Expectation::Failure
    &&& cases[2] == (TestMessage::CalculatePower { count: 0 }, Expectation::Failure)
    &&& cases[3] == (TestMessage::CalculatePower { count: u32::MAX }, Expectation::Failure)
    &&& cases[4] == (
        TestMessage::CalculateCompetitionResult { attacker_power: 1000, defender_power: 500 },
        Expectation::CompetitionResult,
    )
    &&& cases[5] == (
        TestMessage::CalculateReward { currency: 100, points: 5 },
        Expectation::RewardResult,
    )
}

/// The six requests that every worker is tried with, each with what it must bring.
pub fn basic_cases() -> (cases: Vec<(TestMessage, Expectation)>)
    ensures
        are_basic_cases(cases@),
{
    let mut cases: Vec<(TestMessage, Expectation)> = Vec::new();
    cases.push((TestMessage::CalculatePower { count: 100 }, Expectation::Power));
    cases.push(
        (
            TestMessage::CalculateCategoryBonus {
                category_name: "UnknownCategory".to_owned(),
                base_power: 0,
            },
            Expectation::Failure,
        ),
    );
    cases.push((TestMessage::CalculatePower { count: 0 }, Expectation::Failure));
    cases.push((TestMessage::CalculatePower { count: u32::MAX }, Expectation::Failure));
    cases.push(
        (
            TestMessage::CalculateCompetitionResult { attacker_power: 1000, defender_power: 500 },
            Expectation::CompetitionResult,
        ),
    );
    cases.push(
        (TestMessage::CalculateReward { currency: 100, points: 5 }, Expectation::RewardResult),
    );
    cases
}

/// The request that goes through a callback: the worker sends 42 to the
/// supervisor and replies with one more.
pub fn callback_case() -> (case: (TestMessage, Expectation))
    ensures
        case == (
            TestMessage::CallbackRoundtrip { value: 42 },
            Expectation::CallbackRoundtrip { value: 43 },
        ),
{
    (TestMessage::CallbackRoundtrip { value: 42 }, Expectation::CallbackRoundtrip { value: 43 })
}

/// The nine requests that are fired at once: powers of 100, 200 and so on
/// up to 900. Each must bring a power.
pub fn rapid_fire_cases() -> (cases: Vec<TestMessage>)
    ensures
        cases@.len() == 9,
        forall|i: int|
            0 <= i < 9 ==> (#[trigger] cases@[i]) == (TestMessage::CalculatePower {
                count: ((i + 1) * 100) as u32,
            }),
{
    let mut cases: Vec<TestMessage> = Vec::new();
    let mut number: u32 = 1;
    while number < 10
        invariant
            1 <= number <= 10,
            cases@.len() == number - 1,
            forall|i: int|
                0 <= i < number - 1 ==> (#[trigger] cases@[i]) == (TestMessage::CalculatePower {
                    count: ((i + 1) * 100) as u32,
                }),
        decreases 10 - number,
    {
        cases.push(TestMessage::CalculatePower { count: number * 100 });
        number = number + 1;
    }
    cases
}

/// Whether `cases` are the five streams of the streaming run.
pub open spec fn are_streaming_cases(cases: Seq<(TestMessage, StreamExpectation)>) -> bool {
    &&& cases.len() == 5
    &&& cases[0] == (
        TestMessage::StreamFibonacci { count: 10 },
        StreamExpectation::Fibonacci { count: 10 },
    )
    &&& cases[1] == (
        TestMessage::StreamRandomNumbers { count: 5, max_value: 100 },
        StreamExpectation::Within { count: 5, low: 1, high: 100 },
    )
    &&& cases[2] == (
        TestMessage::StreamWithDelays { count: 3, delay_ms: 50 },
        StreamExpectation::Count { count: 3 },
    )
    &&& cases[3] == (
        TestMessage::StreamWithErrors { count: 5, error_at: Some(2u32) },
        StreamExpectation::ErrorAfter { count: 2 },
    )
    &&& cases[4] == (
        TestMessage::StreamLargeDataset { count: 10 },
        StreamExpectation::Count { count: 10 },
    )
}

/// The five streams of the streaming run, each with what it must bring.
pub fn streaming_cases() -> (cases: Vec<(TestMessage, StreamExpectation)>)
    ensures
        are_streaming_cases(cases@),
{
    let mut cases: Vec<(TestMessage, StreamExpectation)> = Vec::new();
    cases.push(
        (TestMessage::StreamFibonacci { count: 10 }, StreamExpectation::Fibonacci { count: 10 }),
    );
    cases.push(
        (
            TestMessage::StreamRandomNumbers { count: 5, max_value: 100 },
            StreamExpectation::Within { count: 5, low: 1, high: 100 },
        ),
    );
    cases.push(
        (
            TestMessage::StreamWithDelays { count: 3, delay_ms: 50 },
            StreamExpectation::Count { count: 3 },
        ),
    );
    cases.push(
        (
            TestMessage::StreamWithErrors { count: 5, error_at: Some(2) },
            StreamExpectation::ErrorAfter { count: 2 },
        ),
    );
    cases.push(
        (TestMessage::StreamLargeDataset { count: 10 }, StreamExpectation::Count { count: 10 }),
    );
    cases
}

/// Whether `cases` are the three streams of the error handling run: an
/// error at the first item, an error at the last, and none.
pub open spec fn are_error_cases(cases: Seq<(TestMessage, FirstPull)>) -> bool {
    &&& cases.len() == 3
    &&& cases[0] == (
        TestMessage::StreamWithErrors { count: 5, error_at: Some(0u32) },
        FirstPull::Error,
    )
    &&& cases[1] == (
        TestMessage::StreamWithErrors { count: 5, error_at: Some(4u32) },
        FirstPull::Item,
    )
    &&& cases[2] == (
        TestMessage::StreamWithErrors { count: 3, error_at: None::<u32> },
        FirstPull::Item,
    )
}

/// The three streams of the error handling run, each with what its first
/// pull must bring.
pub fn error_cases() -> (cases: Vec<(TestMessage, FirstPull)>)
    ensures
        are_error_cases(cases@),
{
    let mut cases: Vec<(TestMessage, FirstPull)> = Vec::new();
    cases.push((TestMessage::StreamWithErrors { count: 5, error_at: Some(0) }, FirstPull::Error));
    cases.push((TestMessage::StreamWithErrors { count: 5, error_at: Some(4) }, FirstPull::Item));
    cases.push((TestMessage::StreamWithErrors { count: 3, error_at: None }, FirstPull::Item));
    cases
}

/// The three configurations with which no pool may come up, each with the
/// seconds that the attempt is given.
pub fn invalid_config_cases() -> (cases: Vec<(Suite, u64)>)
    ensures
        cases@ == seq![
            (Suite::InvalidModule, 31u64),
            (Suite::InvalidFunction, 31u64),
            (Suite::InvalidPath, 32u64),
        ],
{
    let mut cases: Vec<(Suite, u64)> = Vec::new();
    cases.push((Suite::InvalidModule, 31));
    cases.push((Suite::InvalidFunction, 31));
    cases.push((Suite::InvalidPath, 32));
    assert(cases@ =~= seq![
        (Suite::InvalidModule, 31u64),
        (Suite::InvalidFunction, 31u64),
        (Suite::InvalidPath, 32u64),
    ]);
    cases
}

/// Whether a pull of a stream counts towards the throughput: items do, and
/// so do the errors that a producer reports.
pub open spec fn is_counted(pulled: Result<TestResponse, ExecutionError>) -> bool {
    pulled matches Ok(TestResponse::StreamItem { .. }) || pulled matches Ok(
        TestResponse::StreamError { .. },
    )
}

/// How many of `pulled` count towards the throughput.
pub open spec fn counted_in(pulled: Seq<Result<TestResponse, ExecutionError>>) -> nat
    decreases pulled.len(),
{
    if pulled.len() == 0 {
        0
    } else {
        counted_in(pulled.drop_last()) + if is_counted(pulled.last()) {
            1nat
        } else {
            0nat
        }
    }
}

/// Counts what a stream brought towards the throughput: every item and
/// every reported error, nothing else.
pub fn count_throughput(pulled: &Vec<Result<TestResponse, ExecutionError>>) -> (count: usize)
    ensures
        count == counted_in(pulled@),
{
    let mut count: usize = 0;
    let mut at: usize = 0;
    assert(pulled@.take(0) =~= Seq::<Result<TestResponse, ExecutionError>>::empty());
    while at < pulled.len()
        invariant
            at <= pulled@.len(),
            count == counted_in(pulled@.take(at as int)),
            count <= at,
        decreases pulled@.len() - at,
    {
        proof {
            let longer = pulled@.take(at + 1);
            assert(longer.drop_last() =~= pulled@.take(at as int));
            assert(longer.last() == pulled@[at as int]);
        }
        let counted: bool = match &pulled[at] {
            Ok(TestResponse::StreamItem { .. }) => true,
            Ok(TestResponse::StreamError { .. }) => true,
            _ => false,
        };
        if counted {
            count = count + 1;
        }
        at = at + 1;
    }
    assert(pulled@.take(at as int) =~= pulled@);
    count
}

/// The order that the trader is asked to place: a widget for 42.
pub fn trader_case() -> (message: TraderMessage)
    ensures
        message matches TraderMessage::OrderDetails { item, currency } && item@ == "widget"@
            && currency == 42,
{
    TraderMessage::OrderDetails { item: "widget".to_owned(), currency: 42 }
}

/// Whether the trader's reply is the result of an order.
pub fn trader_meets(reply: &Result<TraderResponse, ExecutionError>) -> (met: bool)
    ensures
        met == (*reply matches Ok(TraderResponse::OrderResult { .. })),
{
    match reply {
        Ok(TraderResponse::OrderResult { .. }) => true,
        _ => false,
    }
}

} // verus!
