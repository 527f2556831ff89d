//! Configuration for the search algorithm.
use vstd::prelude::*;

verus! {

/// Configuration for the search algorithm.
#[derive(Debug, Clone, Copy)]
pub struct SearchConfig {
    /// The maximum depth to search in half-moves.
    pub max_depth: u8,
    /// The number of threads to use for parallel iterative deepening.
    pub num_threads: u8,
    /// The maximum time to search in milliseconds.
    pub max_time_ms: Option<u32>,
}

impl Default for SearchConfig {
    /// Returns the default search configuration: twenty half-moves deep, one
    /// thread, no time limit.
    fn default() -> (config: Self)
        ensures
            config == (SearchConfig { max_depth: 20, num_threads: 1, max_time_ms: None }),
    {
        Self::new(20, 1, None)
    }
}

impl SearchConfig {
    /// The search depth of a difficulty level.
    pub open spec fn depth_of(difficulty: u8) -> u8 {
        if difficulty <= 1 {
            1
        } else if difficulty == 2 {
            2
        } else if difficulty <= 6 {
            10
        } else if difficulty <= 9 {
            20
        } else {
            40
        }
    }

    /// The time budget of a difficulty level, in milliseconds. Levels 1 to 9
    /// have one; any other level searches without a time limit.
    pub open spec fn budget_of(difficulty: u8) -> Option<u32> {
        if difficulty == 1 {
            Some(5u32)
        } else if difficulty == 2 {
            Some(10u32)
        } else if difficulty == 3 {
            Some(20u32)
        } else if difficulty == 4 {
            Some(50u32)
        } else if difficulty == 5 {
            Some(100u32)
        } else if difficulty == 6 {
            Some(200u32)
        } else if difficulty == 7 {
            Some(500u32)
        } else if difficulty == 8 {
            Some(1000u32)
        } else if difficulty == 9 {
            Some(2000u32)
        } else {
            None
        }
    }

    /// Creates a new search configuration.
    pub fn new(max_depth: u8, num_threads: u8, max_time_ms: Option<u32>) -> (config: Self)
        ensures
            config == (SearchConfig { max_depth, num_threads, max_time_ms }),
    {
        SearchConfig { max_depth, num_threads, max_time_ms }
    }

    /// Creates a new search configuration based on a difficulty level: the
    /// higher the level, the deeper the search and the longer it may take.
    /// The search runs on one thread.
    pub fn new_from_difficulty(difficulty: u8) -> (config: Self)
        ensures
            config == (SearchConfig {
                max_depth: Self::depth_of(difficulty),
                num_threads: 1,
                max_time_ms: Self::budget_of(difficulty),
            }),
    {
        let max_depth: u8 = match difficulty {
            0..=1 => 1,
            2 => 2,
            3 => 10,
            4 => 10,
            5 => 10,
            6 => 10,
            7 => 20,
            8 => 20,
            9 => 20,
            _ => 40,
        };
        let max_time_ms: Option<u32> = match difficulty {
            1 => Some(5),
            2 => Some(10),
            3 => Some(20),
            4 => Some(50),
            5 => Some(100),
            6 => Some(200),
            7 => Some(500),
            8 => Some(1000),
            9 => Some(2000),
            _ => None,
        };
        SearchConfig::new(max_depth, 1, max_time_ms)
    }
}

} // verus!
