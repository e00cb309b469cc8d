use vstd::prelude::*;

verus! {

/// One entry of a loaded configuration.
#[derive(Debug, Clone)]
pub struct ProgramConfig {
    pub name: String,
    pub command: String,
    pub environment: Vec<String>,
}

/// A loaded configuration: the programs to supervise, in order.
#[derive(Debug, Clone)]
pub struct Config {
    pub programs: Vec<ProgramConfig>,
}

/// Why a configuration could not be loaded.
#[derive(Debug, Clone)]
pub enum ConfigError {
    /// The file could not be read.
    ConfigFileError(String),
    /// The file was read but does not describe a configuration.
    ConfigDeserializedError(String),
}

pub open spec fn config_error_text(e: ConfigError) -> Seq<char> {
    match e {
        ConfigError::ConfigFileError(m) => "ConfigFileError: "@ + m@,
        ConfigError::ConfigDeserializedError(m) => "ConfigDeserializedError: "@ + m@,
    }
}

impl ConfigError {
    /// The text reported to the operator for this error.
    pub fn message(&self) -> (r: String)
        ensures
            r@ == config_error_text(*self),
    {
        match self {
            ConfigError::ConfigFileError(m) => {
                let mut r = String::from_str("ConfigFileError: ");
                r.append(m.as_str());
                r
            },
            ConfigError::ConfigDeserializedError(m) => {
                let mut r = String::from_str("ConfigDeserializedError: ");
                r.append(m.as_str());
                r
            },
        }
    }
}

} // verus!
