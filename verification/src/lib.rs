//! The logic of a chat bot that hands requests to remote generation
//! services and relays what they bring: admission control, the retry
//! policy, the progress policy, the state machine of a generation job and
//! the aggregation of its results, with the texts that the bot shows.
//! Nothing here sends or receives: a job is a state machine that is told
//! what happened outside and says what to do next.

pub mod aggregate;
pub mod collage;
pub mod commands;
pub mod convert_argument;
pub mod craiyon;
pub mod job;
pub mod orchestrator;
pub mod progress;
pub mod raster;
pub mod rate_limit;
pub mod retry;
pub mod status;
pub mod tally;
pub mod text_utils;
