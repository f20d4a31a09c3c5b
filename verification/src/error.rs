//! The failures that end a run before any rule group is touched.

use vstd::prelude::*;

verus! {

/// A failure that aborts the whole run: no request is submitted after it.
#[derive(Debug, PartialEq)]
pub enum FatalError {
    /// Neither an explicit configuration path nor a home directory is known.
    ConfigLocationUnknown,
    /// The configuration file does not exist.
    ConfigFileMissing,
    /// The configuration names no rule group.
    NoSecurityGroups,
    /// The requested region is not one the remote API knows; holds the parser's own words.
    InvalidRegion(String),
    /// No consensus on this machine's public address could be reached.
    AddressUnavailable,
}

impl FatalError {
    /// The text shown to the operator for this failure.
    pub open spec fn message_text(&self) -> Seq<char> {
        match self {
            FatalError::ConfigLocationUnknown =>
                "Unable to identify config file location. Please explicitly pass the config file location in with the --config argument."@,
            FatalError::ConfigFileMissing =>
                "Config file does not exist. Please create a config file 'ssh-me' in your home directory or pass the config file location in with the --config argument."@,
            FatalError::NoSecurityGroups =>
                "No security groups found. Please specify security group ids on separate lines in your config file"@,
            FatalError::InvalidRegion(reason) => reason@,
            FatalError::AddressUnavailable => "Unable to obtain IP address"@,
        }
    }

    /// Renders the failure for the operator.
    pub fn message(&self) -> (text: String)
        ensures
            text@ == self.message_text(),
    {
        match self {
            FatalError::ConfigLocationUnknown =>
                "Unable to identify config file location. Please explicitly pass the config file location in with the --config argument.".to_string(),
            FatalError::ConfigFileMissing =>
                "Config file does not exist. Please create a config file 'ssh-me' in your home directory or pass the config file location in with the --config argument.".to_string(),
            FatalError::NoSecurityGroups =>
                "No security groups found. Please specify security group ids on separate lines in your config file".to_string(),
            FatalError::InvalidRegion(reason) => reason.clone(),
            FatalError::AddressUnavailable => "Unable to obtain IP address".to_string(),
        }
    }
}

} // verus!
