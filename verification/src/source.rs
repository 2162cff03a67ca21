//! Where a configuration value came from.

use vstd::prelude::*;

verus! {

/// The layer that supplied a configuration value. Layers are listed from the
/// weakest to the strongest.
#[derive(Debug, Clone, Copy, PartialEq, Eq, Structural)]
pub enum ConfigSource {
    Default,
    TomlFile,
    JsonFile,
    Environment,
    Cli,
}

impl ConfigSource {
    /// The position of the layer in the order of precedence: a layer with a
    /// higher rank overrides one with a lower rank.
    pub open spec fn rank(self) -> nat {
        match self {
            ConfigSource::Default => 0,
            ConfigSource::TomlFile => 1,
            ConfigSource::JsonFile => 2,
            ConfigSource::Environment => 3,
            ConfigSource::Cli => 4,
        }
    }

    /// The short label that reports print for the layer.
    pub open spec fn label(self) -> Seq<char> {
        match self {
            ConfigSource::Default => "default"@,
            ConfigSource::TomlFile => "toml"@,
            ConfigSource::JsonFile => "json"@,
            ConfigSource::Environment => "env"@,
            ConfigSource::Cli => "cli"@,
        }
    }

    pub fn precedence(self) -> (r: u8)
        ensures
            r == self.rank(),
    {
        match self {
            ConfigSource::Default => 0,
            ConfigSource::TomlFile => 1,
            ConfigSource::JsonFile => 2,
            ConfigSource::Environment => 3,
            ConfigSource::Cli => 4,
        }
    }

    /// The short label of the layer: `default`, `toml`, `json`, `env` or `cli`.
    pub fn name(self) -> (r: &'static str)
        ensures
            r@ == self.label(),
    {
        match self {
            ConfigSource::Default => "default",
            ConfigSource::TomlFile => "toml",
            ConfigSource::JsonFile => "json",
            ConfigSource::Environment => "env",
            ConfigSource::Cli => "cli",
        }
    }
}

/// A configuration value together with the layer that supplied it.
#[derive(Debug, Clone)]
pub struct ConfigValue<T> {
    pub value: T,
    pub source: ConfigSource,
}

impl<T> ConfigValue<T> {
    pub fn new(value: T, source: ConfigSource) -> (r: Self)
        ensures
            r.value == value,
            r.source == source,
    {
        Self { value, source }
    }
}

} // verus!
