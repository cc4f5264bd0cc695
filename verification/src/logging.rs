//! What the logging set-up decides, apart from the writing itself: which
//! sample configuration belongs to which application, and what is put on
//! record when a result turns out to be an error.

use crate::text::{fill, filled};
use vstd::prelude::*;

verus! {

/// The applications that a logging configuration can be installed for.
#[derive(Clone, Copy, Debug, PartialEq, Eq, Structural)]
pub enum ApplicationType {
    BaseNode,
    ConsoleWallet,
    MergeMiningProxy,
    MiningNode,
    StratumTranscoder,
    ValidatorNode,
    Collectibles,
}

/// The name of the sample configuration for an application.
pub open spec fn sample_name(application_type: ApplicationType) -> Seq<char> {
    match application_type {
        ApplicationType::BaseNode => "log4rs_sample_base_node.yml"@,
        ApplicationType::ConsoleWallet => "log4rs_sample_wallet.yml"@,
        ApplicationType::MiningNode => "log4rs_sample_mining_node.yml"@,
        ApplicationType::MergeMiningProxy => "log4rs_sample_proxy.yml"@,
        ApplicationType::StratumTranscoder => "log4rs_sample_transcoder.yml"@,
        ApplicationType::ValidatorNode => "log4rs_sample_validator_node.yml"@,
        ApplicationType::Collectibles => "log4rs_collectibles.yml"@,
    }
}

/// The sample configuration that is installed for an application, by the
/// name of its file.
pub fn log_config_sample(application_type: ApplicationType) -> (name: &'static str)
    ensures
        name@ == sample_name(application_type),
{
    match application_type {
        ApplicationType::BaseNode => "log4rs_sample_base_node.yml",
        ApplicationType::ConsoleWallet => "log4rs_sample_wallet.yml",
        ApplicationType::MiningNode => "log4rs_sample_mining_node.yml",
        ApplicationType::MergeMiningProxy => "log4rs_sample_proxy.yml",
        ApplicationType::StratumTranscoder => "log4rs_sample_transcoder.yml",
        ApplicationType::ValidatorNode => "log4rs_sample_validator_node.yml",
        ApplicationType::Collectibles => "log4rs_collectibles.yml",
    }
}

/// How much a line on record matters.
#[derive(Clone, Copy, Debug, PartialEq, Eq, Structural)]
pub enum LogLevel {
    Error,
    Warn,
    Info,
    Debug,
    Trace,
}

/// A line to be put on record.
#[derive(Debug, PartialEq, Eq)]
pub struct LogLine {
    pub level: LogLevel,
    /// The part of the program that the line comes from.
    pub target: String,
    pub message: String,
}

/// A line on record as contracts see it.
pub struct LogLineView {
    pub level: LogLevel,
    pub target: Seq<char>,
    pub message: Seq<char>,
}

impl View for LogLine {
    type V = LogLineView;

    open spec fn view(&self) -> LogLineView {
        LogLineView { level: self.level, target: self.target@, message: self.message@ }
    }
}

/// The view of a line that may be there or not.
pub open spec fn line_view(line: Option<LogLine>) -> Option<LogLineView> {
    match line {
        Some(l) => Some(l@),
        None => None,
    }
}

/// Tells the value of a result from its error. A value is handed back and
/// nothing is to be put on record. An error is given up: in its place comes
/// the line to put on record, which is `msg` with the error written where
/// `msg` has its first `{}`.
pub fn log_if_error<T>(level: LogLevel, target: &str, msg: &str, result: Result<T, &str>) -> (out: (
    Option<T>,
    Option<LogLine>,
))
    ensures
        out.0 == (match result {
            Ok(value) => Some(value),
            Err(_) => None,
        }),
        line_view(out.1) == (match result {
            Ok(_) => None,
            Err(error) => Some(
                LogLineView { level, target: target@, message: filled(msg@, error@) },
            ),
        }),
{
    match result {
        Ok(value) => (Some(value), None),
        Err(error) => {
            let line = LogLine {
                level,
                target: String::from_str(target),
                message: fill(msg, error),
            };
            (None, Some(line))
        },
    }
}

/// As `log_if_error`, for a message that is complete as it stands: the error
/// itself is not written out.
pub fn log_if_error_fmt<T, E>(
    level: LogLevel,
    target: &str,
    message: &str,
    result: Result<T, E>,
) -> (out: (Option<T>, Option<LogLine>))
    ensures
        out.0 == (match result {
            Ok(value) => Some(value),
            Err(_) => None,
        }),
        line_view(out.1) == (match result {
            Ok(_) => None,
            Err(_) => Some(LogLineView { level, target: target@, message: message@ }),
        }),
{
    match result {
        Ok(value) => (Some(value), None),
        Err(_) => {
            let line = LogLine {
                level,
                target: String::from_str(target),
                message: String::from_str(message),
            };
            (None, Some(line))
        },
    }
}

} // verus!
