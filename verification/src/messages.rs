//! The messages, replies and callbacks of the demonstration workers.

use vstd::prelude::*;
use crate::dispatch::ExecutionError;

verus! {

/// What the demonstration logic can object to.
#[derive(Debug, Clone, PartialEq, Eq)]
pub enum TestError {
    NotEnoughEntities { needed: i32, got: i32 },
    UnknownCategory(String),
    InvalidPower(String),
}

/// The requests of the demonstration worker.
#[derive(Debug, Clone, PartialEq, Eq)]
pub enum TestMessage {
    CalculatePower { count: u32 },
    CalculateCategoryBonus { category_name: String, base_power: u32 },
    CalculateCompetitionResult { attacker_power: u32, defender_power: u32 },
    CalculateReward { currency: u32, points: u32 },
    CallbackRoundtrip { value: u32 },
    StreamFibonacci { count: u32 },
    StreamRandomNumbers { count: u32, max_value: u32 },
    StreamWithDelays { count: u32, delay_ms: u32 },
    StreamWithErrors { count: u32, error_at: Option<u32> },
    StreamLargeDataset { count: u32 },
}

impl Default for TestMessage {
    /// The default request asks for the power of nothing.
    fn default() -> (message: Self)
        ensures
            message == (TestMessage::CalculatePower { count: 0 }),
    {
        TestMessage::CalculatePower { count: 0 }
    }
}

/// The replies of the demonstration worker.
#[derive(Debug, Clone, PartialEq, Eq)]
pub enum TestResponse {
    Power { power: u32 },
    CategoryBonus { bonus: u32 },
    CompetitionResult { victory: bool },
    RewardResult { total_currency: u32, bonus_currency: u32 },
    CallbackRoundtripResult { value: u32 },
    StreamItem { index: u32, value: u32 },
    StreamError { index: u32, error: String },
    StreamComplete { total_items: u32 },
}

impl TestResponse {
    /// A reply is its own success value: it never stands for an error.
    pub fn to_result(self) -> (result: Result<TestResponse, TestError>)
        ensures
            result == Ok::<TestResponse, TestError>(self),
    {
        Ok(self)
    }

    /// The value that the reply hands to its caller: itself.
    pub fn into_value(self) -> (value: TestResponse)
        ensures
            value == self,
    {
        self
    }
}

/// What the demonstration worker sends back to the supervisor mid-call.
#[derive(Debug, Clone, Copy, PartialEq, Eq, Structural)]
pub struct TestCallbackMessage {
    pub value: u32,
}

/// A callback handler that takes note of every callback and accepts it.
#[derive(Debug, Clone, Copy, PartialEq, Eq, Structural)]
pub struct TestCallbackHandler;

impl TestCallbackHandler {
    /// Accepts a callback of the demonstration worker.
    pub fn handle(&self, callback: TestCallbackMessage) -> (outcome: Result<(), ExecutionError>)
        ensures
            outcome is Ok,
    {
        Ok(())
    }

    /// Accepts a callback of the trader.
    pub fn handle_trader(&self, callback: TraderCallbackMessage) -> (outcome: Result<
        (),
        ExecutionError,
    >)
        ensures
            outcome is Ok,
    {
        Ok(())
    }

    /// Accepts a callback of the benchmark worker.
    pub fn handle_bench(&self, callback: BenchCallback) -> (outcome: Result<(), ExecutionError>)
        ensures
            outcome is Ok,
    {
        Ok(())
    }
}

/// A callback handler that counts the callbacks it has seen.
#[derive(Debug, Clone, Copy, PartialEq, Eq, Structural)]
pub struct CountingCallbackHandler {
    pub counter: usize,
}

impl CountingCallbackHandler {
    /// Counts the callback and says for how many milliseconds the caller is
    /// to pause before it answers. The count wraps at the top of its range.
    pub fn handle(&mut self, callback: BenchCallback) -> (pause_ms: u64)
        ensures
            pause_ms == callback.rust_sleep_ms,
            final(self).counter == if old(self).counter == usize::MAX {
                0
            } else {
                old(self).counter + 1
            },
    {
        self.counter = if self.counter == usize::MAX {
            0
        } else {
            self.counter + 1
        };
        callback.rust_sleep_ms
    }
}

/// The requests of the trader.
#[derive(Debug, Clone, PartialEq, Eq)]
pub enum TraderMessage {
    OrderDetails { item: String, currency: u32 },
}

/// The replies of the trader.
#[derive(Debug, Clone, PartialEq, Eq)]
pub enum TraderResponse {
    OrderResult { result: String },
}

impl TraderResponse {
    /// A reply is its own success value: it never stands for an error.
    pub fn to_result(self) -> (result: Result<TraderResponse, TestError>)
        ensures
            result == Ok::<TraderResponse, TestError>(self),
    {
        Ok(self)
    }

    /// The value that the reply hands to its caller: itself.
    pub fn into_value(self) -> (value: TraderResponse)
        ensures
            value == self,
    {
        self
    }
}

/// What the trader sends back to the supervisor mid-call.
#[derive(Debug, Clone, Copy, PartialEq, Eq, Structural)]
pub struct TraderCallbackMessage {
    pub value: u32,
}

/// The request of the benchmark worker.
#[derive(Debug, Clone, Copy, PartialEq, Eq, Structural)]
pub struct BenchMessage {
    pub id: u64,
    pub py_sleep_ms: u64,
    pub rust_sleep_ms: u64,
}

/// The replies of the benchmark worker.
#[derive(Debug, Clone, Copy, PartialEq, Eq, Structural)]
pub enum BenchResponse {
    Power { power: u32 },
    CategoryBonus { bonus: u32 },
    CompetitionResult { victory: bool },
    RewardResult { total_currency: u32, bonus_currency: u32 },
    CallbackRoundtripResult { value: u32 },
}

impl BenchResponse {
    /// A reply is its own success value: it never stands for an error.
    pub fn to_result(self) -> (result: Result<BenchResponse, TestError>)
        ensures
            result == Ok::<BenchResponse, TestError>(self),
    {
        Ok(self)
    }

    /// The value that the reply hands to its caller: itself.
    pub fn into_value(self) -> (value: BenchResponse)
        ensures
            value == self,
    {
        self
    }
}

/// What the benchmark worker sends back to the supervisor mid-call.
#[derive(Debug, Clone, Copy, PartialEq, Eq, Structural)]
pub struct BenchCallback {
    pub id: u64,
    pub rust_sleep_ms: u64,
}

/// The supervisor's answer to a benchmark callback.
#[derive(Debug, Clone, Copy, PartialEq, Eq, Structural)]
pub struct BenchCallbackReply {
    pub id: u64,
}

impl BenchCallbackReply {
    /// A reply is its own success value: it never stands for an error.
    pub fn to_result(self) -> (result: Result<BenchCallbackReply, ()>)
        ensures
            result == Ok::<BenchCallbackReply, ()>(self),
    {
        Ok(self)
    }

    /// The value that the reply hands to its caller: itself.
    pub fn into_value(self) -> (value: BenchCallbackReply)
        ensures
            value == self,
    {
        self
    }
}

} // verus!
