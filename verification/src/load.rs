//! Loading of a gateway configuration.

use vstd::prelude::*;

use crate::config;
use crate::config::{ConfigInterpolationError, Variables};
use crate::interpolate::Fault;
use crate::names::NameMap;
use crate::server::{Gateway, GatewayConfig};
use crate::text;

verus! {

/// What was found at the path of a configuration.
pub enum ConfigFile {
    /// The file could not be read.
    Unreadable(String),
    /// The contents are no configuration.
    Malformed(String),
    /// The contents, before interpolation.
    Parsed(GatewayConfig),
}

/// Why a configuration could not be loaded.
#[derive(Debug)]
pub enum ConfigError {
    /// The file could not be read.
    Io(String),
    /// The contents are no configuration.
    Parse(String),
    /// A reference to a variable could not be expanded.
    Interpolation(ConfigInterpolationError),
}

/// A loading error as a mathematical value.
pub enum LoadFault {
    Io(Seq<char>),
    Parse(Seq<char>),
    Interpolation(Seq<char>, Fault),
}

impl View for ConfigError {
    type V = LoadFault;

    open spec fn view(&self) -> LoadFault {
        match self {
            ConfigError::Io(e) => LoadFault::Io(e@),
            ConfigError::Parse(e) => LoadFault::Parse(e@),
            ConfigError::Interpolation(e) => LoadFault::Interpolation(e.field@, e.source@),
        }
    }
}

/// The message of a loading error.
pub open spec fn load_message(f: LoadFault) -> Seq<char> {
    match f {
        LoadFault::Io(e) => "failed to read configuration file: "@ + e,
        LoadFault::Parse(e) => "failed to parse configuration: "@ + e,
        LoadFault::Interpolation(field, fault) => config::interpolation_message(field, fault),
    }
}

impl ConfigError {
    /// The message shown to operators.
    pub fn message(&self) -> (m: String)
        ensures
            m@ == load_message(self@),
    {
        match self {
            ConfigError::Io(e) => {
                let mut m = String::from_str("failed to read configuration file: ");
                m.append(e.as_str());
                m
            },
            ConfigError::Parse(e) => {
                let mut m = String::from_str("failed to parse configuration: ");
                m.append(e.as_str());
                m
            },
            ConfigError::Interpolation(e) => e.message(),
        }
    }
}

/// The configuration that a file gives: its environment and header values
/// are expanded.
pub open spec fn loaded(file: ConfigFile, variables: Variables) -> Result<Gateway, LoadFault> {
    match file {
        ConfigFile::Unreadable(e) => Err(LoadFault::Io(e@)),
        ConfigFile::Malformed(e) => Err(LoadFault::Parse(e@)),
        ConfigFile::Parsed(c) => match config::expand_servers(c@.servers, variables) {
            Ok(servers) => Ok(Gateway { servers, ..c@ }),
            Err(e) => Err(LoadFault::Interpolation(e.0, e.1)),
        },
    }
}

/// Load a configuration from what was found at its path and the variables of
/// the environment.
pub fn load(file: ConfigFile, variables: &NameMap<String>) -> (r: Result<
    GatewayConfig,
    ConfigError,
>)
    ensures
        match loaded(file, variables@) {
            Ok(g) => r matches Ok(c) && c@ == g,
            Err(f) => r matches Err(e) && e@ == f,
        },
{
    match file {
        ConfigFile::Unreadable(e) => Err(ConfigError::Io(e)),
        ConfigFile::Malformed(e) => Err(ConfigError::Parse(e)),
        ConfigFile::Parsed(c) => {
            let mut config = c;
            match config::interpolate_configuration(&mut config, variables) {
                Ok(()) => Ok(config),
                Err(e) => Err(ConfigError::Interpolation(e)),
            }
        },
    }
}

// ---------------------------------------------------------------------------
// Laws
// ---------------------------------------------------------------------------

/// A configuration is loaded only from a file that could be read and parsed
/// and whose values could all be expanded. It is then what the file holds,
/// with the values of its servers expanded and nothing else changed.
pub proof fn configurations_are_loaded_whole(file: ConfigFile, variables: Variables)
    ensures
        file matches ConfigFile::Unreadable(e) ==> loaded(file, variables) == Err::<Gateway, _>(
            LoadFault::Io(e@),
        ),
        file matches ConfigFile::Malformed(e) ==> loaded(file, variables) == Err::<Gateway, _>(
            LoadFault::Parse(e@),
        ),
        file matches ConfigFile::Parsed(c) ==> match config::expand_servers(c@.servers, variables) {
            Ok(servers) => loaded(file, variables) matches Ok(g) && g.servers == servers && g == (
            Gateway { servers: g.servers, ..c@ }),
            Err((field, fault)) => loaded(file, variables) == Err::<Gateway, _>(
                LoadFault::Interpolation(field, fault),
            ),
        },
{
}

/// A loading error holds its reason.
pub proof fn loading_errors_hold_their_reason(a: Seq<char>, fault: Fault)
    ensures
        text::mentions(load_message(LoadFault::Io(a)), a),
        text::mentions(load_message(LoadFault::Parse(a)), a),
        text::mentions(load_message(LoadFault::Interpolation(a, fault)), a),
{
    let none = Seq::<char>::empty();
    text::lemma_mentions("failed to read configuration file: "@, a, none);
    text::lemma_mentions("failed to parse configuration: "@, a, none);
    config::configuration_messages_name_their_subject(a, a, a, fault);
}

} // verus!
