//! Watches one operating-system process and builds the chat-webhook
//! notifications that report when watching starts and when the process ends.
//!
//! The crate holds the verified logic: destination resolution, the config-file
//! parser, timestamp and duration rendering, the webhook payload encoder, and
//! the monitoring state machine. The surrounding binary performs the actual
//! process-table queries, clock reads and HTTP posts and feeds the results in
//! as plain values.

mod config;
mod datetime;
mod destination;
mod error;
mod message;
mod monitor;
mod numbers;
mod paths;
mod payload;
mod pid;
mod resolve;

pub use config::ConfigFile;
pub use datetime::{format_duration, format_timestamp, lemma_split_is_calendar_date};
pub use destination::is_destination_url;
pub use error::Error;
pub use message::create_message;
pub use monitor::{Monitor, Phase, lemma_absent_process_sends_nothing, lemma_done_sends_exactly_two};
pub use payload::WebhookPayload;
pub use pid::parse_pid;
pub use paths::{get_config_dir, get_config_file, get_pid_json_dir, get_pid_json_file};
pub use resolve::{Configuration, resolve_configuration};
