//! What can be wrong with a configuration.

use vstd::prelude::*;
use vstd::string::StringExecFns;

verus! {

/// Why a configuration was refused.
#[derive(Debug, PartialEq, Eq)]
pub enum ConfigError {
    /// A host holds a directive that is not known.
    UnknownDirective { host: String, keyword: String },
    /// A directive of a host has fewer arguments than it needs.
    MissingArgument { host: String, keyword: String },
    /// What follows the colon in a host name is not a port number.
    InvalidPort { host: String },
}

/// What a [`ConfigError`] holds, as mathematical values.
pub enum ConfigErrorView {
    UnknownDirective { host: Seq<char>, keyword: Seq<char> },
    MissingArgument { host: Seq<char>, keyword: Seq<char> },
    InvalidPort { host: Seq<char> },
}

impl View for ConfigError {
    type V = ConfigErrorView;

    open spec fn view(&self) -> ConfigErrorView {
        match *self {
            ConfigError::UnknownDirective { host, keyword } => ConfigErrorView::UnknownDirective {
                host: host@,
                keyword: keyword@,
            },
            ConfigError::MissingArgument { host, keyword } => ConfigErrorView::MissingArgument {
                host: host@,
                keyword: keyword@,
            },
            ConfigError::InvalidPort { host } => ConfigErrorView::InvalidPort { host: host@ },
        }
    }
}

/// What is wrong, in words.
pub open spec fn description(error: ConfigErrorView) -> Seq<char> {
    match error {
        ConfigErrorView::UnknownDirective { host, keyword } => "host "@ + host
            + ": unknown directive "@ + keyword,
        ConfigErrorView::MissingArgument { host, keyword } => "host "@ + host
            + ": too few arguments for "@ + keyword,
        ConfigErrorView::InvalidPort { host } => "host "@ + host
            + ": what follows the colon is no port number"@,
    }
}

impl ConfigError {
    /// Says in words what is wrong.
    pub fn describe(&self) -> (text: String)
        ensures
            text@ == description(self@),
    {
        match self {
            ConfigError::UnknownDirective { host, keyword } => {
                let mut text = "host ".to_owned();
                text.append(host.as_str());
                text.append(": unknown directive ");
                text.append(keyword.as_str());
                text
            },
            ConfigError::MissingArgument { host, keyword } => {
                let mut text = "host ".to_owned();
                text.append(host.as_str());
                text.append(": too few arguments for ");
                text.append(keyword.as_str());
                text
            },
            ConfigError::InvalidPort { host } => {
                let mut text = "host ".to_owned();
                text.append(host.as_str());
                text.append(": what follows the colon is no port number");
                text
            },
        }
    }
}

} // verus!
