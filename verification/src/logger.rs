//! Where log lines go: to the terminal, or nowhere. The choice is made
//! once, at startup.

use crate::config::Config;
use crate::handler::LogLine;
use crate::text::catenate;
use crate::text::decimal;
use crate::text::decimal_text;
use vstd::prelude::*;

verus! {

/// The sink that prints.
#[derive(Debug, Default, Clone, Copy, PartialEq, Eq, Structural)]
pub struct LoggerDefault {}

/// The sink that swallows.
#[derive(Debug, Default, Clone, Copy, PartialEq, Eq, Structural)]
pub struct LoggerNoop {}

impl LoggerDefault {
    /// What this sink prints for `message`: the message.
    pub fn println(&self, message: &str) -> (printed: Option<String>)
        ensures
            printed is Some && printed->0@ == message@,
    {
        Some(message.to_owned())
    }

    /// What this sink prints for a line break: an empty line.
    pub fn br(&self) -> (printed: Option<String>)
        ensures
            printed is Some && printed->0@ == Seq::<char>::empty(),
    {
        Some(String::new())
    }

    /// What this sink prints for a setting that is switched on or off.
    pub fn print_config(&self, key: &str, value: bool) -> (printed: Option<String>)
        ensures
            printed is Some && printed->0@ == setting_text(key@, value),
    {
        Logger::Default.print_config(key, value)
    }

    /// What this sink prints for a setting with a value in words.
    pub fn print_config_str(&self, key: &str, value: &str) -> (printed: Option<String>)
        ensures
            printed is Some && printed->0@ == key@ + ": "@ + value@,
    {
        let mut text = catenate(key, ": ");
        text.append(value);
        Some(text)
    }
}

impl LoggerNoop {
    /// What this sink prints for `message`: nothing.
    pub fn println(&self, message: &str) -> (printed: Option<String>)
        ensures
            printed is None,
    {
        None
    }

    /// What this sink prints for a line break: nothing.
    pub fn br(&self) -> (printed: Option<String>)
        ensures
            printed is None,
    {
        None
    }

    /// What this sink prints for a setting that is switched on or off: nothing.
    pub fn print_config(&self, key: &str, value: bool) -> (printed: Option<String>)
        ensures
            printed is None,
    {
        None
    }

    /// What this sink prints for a setting with a value in words: nothing.
    pub fn print_config_str(&self, key: &str, value: &str) -> (printed: Option<String>)
        ensures
            printed is None,
    {
        None
    }
}

/// The sink in use.
#[derive(Debug, Clone, Copy, PartialEq, Eq, Structural)]
pub enum Logger {
    Quiet,
    Default,
}

/// A log line as text: the status in square brackets, then the target.
pub open spec fn line_text(line: (u16, Seq<char>)) -> Seq<char> {
    "["@ + decimal_text(line.0 as nat) + "] "@ + line.1
}

/// The words for a setting that is switched on or off.
pub open spec fn setting_text(key: Seq<char>, value: bool) -> Seq<char> {
    key + ": "@ + if value {
        "Enabled"@
    } else {
        "Disabled"@
    }
}

impl Default for Logger {
    /// The sink that prints.
    fn default() -> (logger: Self)
        ensures
            logger == Logger::Default,
    {
        Logger::Default
    }
}

impl Logger {
    /// The sink that the configuration asks for.
    pub fn new(config: &Config) -> (logger: Self)
        ensures
            logger == if config.quiet {
                Logger::Quiet
            } else {
                Logger::Default
            },
    {
        if config.quiet {
            Logger::Quiet
        } else {
            Logger::Default
        }
    }

    /// What the sink prints for `message`: the message, or nothing.
    pub fn println(&self, message: &str) -> (printed: Option<String>)
        ensures
            *self == Logger::Quiet ==> printed is None,
            *self == Logger::Default ==> printed is Some && printed->0@ == message@,
    {
        match self {
            Logger::Quiet => None,
            Logger::Default => Some(message.to_owned()),
        }
    }

    /// What the sink prints for a line break: an empty line, or nothing.
    pub fn br(&self) -> (printed: Option<String>)
        ensures
            *self == Logger::Quiet ==> printed is None,
            *self == Logger::Default ==> printed is Some && printed->0@ == Seq::<char>::empty(),
    {
        match self {
            Logger::Quiet => None,
            Logger::Default => Some(String::new()),
        }
    }

    /// What the sink prints for a setting with a value in words.
    pub fn print_config_str(&self, key: &str, value: &str) -> (printed: Option<String>)
        ensures
            *self == Logger::Quiet ==> printed is None,
            *self == Logger::Default ==> printed is Some && printed->0@ == key@ + ": "@ + value@,
    {
        match self {
            Logger::Quiet => None,
            Logger::Default => {
                let mut text = catenate(key, ": ");
                text.append(value);
                Some(text)
            },
        }
    }

    /// What the sink prints for a terminal outcome of the pipeline.
    pub fn print_outcome(&self, line: &LogLine) -> (printed: Option<String>)
        ensures
            *self == Logger::Quiet ==> printed is None,
            *self == Logger::Default ==> printed is Some && printed->0@ == line_text(line@),
    {
        match self {
            Logger::Quiet => None,
            Logger::Default => {
                let status = decimal(line.status as u64);
                let mut text = catenate("[", status.as_str());
                text.append("] ");
                text.append(line.uri.as_str());
                Some(text)
            },
        }
    }

    /// What the sink prints for a setting that is switched on or off.
    pub fn print_config(&self, key: &str, value: bool) -> (printed: Option<String>)
        ensures
            *self == Logger::Quiet ==> printed is None,
            *self == Logger::Default ==> printed is Some && printed->0@ == setting_text(
                key@,
                value,
            ),
    {
        match self {
            Logger::Quiet => None,
            Logger::Default => {
                let mut text = catenate(key, ": ");
                if value {
                    text.append("Enabled");
                } else {
                    text.append("Disabled");
                }
                Some(text)
            },
        }
    }
}

} // verus!
