//! The lines of the log that all processes share.

use crate::text::{decimal, decimal_string};
use vstd::prelude::*;
use vstd::string::*;

verus! {

/// How much a message matters.
#[allow(non_camel_case_types)]
#[derive(Clone, Copy, Debug, PartialEq, Eq, Structural)]
pub enum LogSeverity {
    ERROR,
    WARN,
    INFO,
    DEBUG,
}

/// The name of a severity, as it stands in the log.
pub open spec fn severity_name(severity: LogSeverity) -> Seq<char> {
    match severity {
        LogSeverity::ERROR => "ERROR"@,
        LogSeverity::WARN => "WARN"@,
        LogSeverity::INFO => "INFO"@,
        LogSeverity::DEBUG => "DEBUG"@,
    }
}

/// One line of the log: the date, the process in square brackets, the
/// severity in square brackets, a dash, the message, and a newline.
pub open spec fn log_line(date: Seq<char>, id: u32, severity: LogSeverity, message: Seq<char>)
    -> Seq<char> {
    date + " ["@ + decimal(id as nat) + "] ["@ + severity_name(severity) + "] - "@ + message
        + "\n"@
}

/// Writes one line of the log, for the process `id` at the time that `date` names.
pub fn format_line(date: &str, id: u32, severity: &LogSeverity, message: &str) -> (line: String)
    ensures
        line@ == log_line(date@, id, *severity, message@),
{
    let name = match severity {
        LogSeverity::ERROR => "ERROR",
        LogSeverity::WARN => "WARN",
        LogSeverity::INFO => "INFO",
        LogSeverity::DEBUG => "DEBUG",
    };
    let mut line = String::from_str(date);
    line.append(" [");
    line.append(decimal_string(id as u64).as_str());
    line.append("] [");
    line.append(name);
    line.append("] - ");
    line.append(message);
    line.append("\n");
    line
}

} // verus!
