//! Layered configuration for a shell assistant: settings are merged from
//! built-in defaults, a TOML file, a JSON file, the environment and
//! command-line flags, and every resolved value remembers which layer won.

pub mod bench;
pub mod builder;
pub mod catalog;
pub mod commands;
pub mod config;
pub mod decode;
pub mod default_laws;
pub mod display;
pub mod documents;
pub mod editor;
pub mod env_laws;
pub mod explain;
pub mod field_names;
pub mod flag_laws;
pub mod hints;
pub mod http;
pub mod init;
pub mod install;
pub mod integration;
pub mod kinds;
pub mod laws;
pub mod layers;
pub mod literal;
pub mod load;
pub mod locale;
pub mod logging;
pub mod mapping_laws;
pub mod meta;
pub mod names;
pub mod options;
pub mod pathmap;
pub mod pipeline_laws;
pub mod provider;
pub mod provider_laws;
pub mod rebuild_laws;
pub mod references;
pub mod render;
pub mod report;
pub mod require_laws;
pub mod resolve_laws;
pub mod script;
pub mod search;
pub mod sound_defaults;
pub mod source;
pub mod suggest;
pub mod text;
pub mod tree;
pub mod tree_laws;
pub mod ui;
pub mod unwritten_laws;
pub mod validate;
