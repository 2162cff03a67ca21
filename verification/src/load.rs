//! Loading: the five layers are merged in their fixed order, the merged tree
//! is decoded, and the settings are resolved against the record of sources.

use crate::builder::ConfigBuilder;
use crate::builder::Merged;
use crate::config::resolved;
use crate::config::AppConfig;
use crate::config::ConfigSpec;
use crate::decode::decode;
use crate::decode::parsed_of;
use crate::documents::json_document;
use crate::documents::read_json;
use crate::documents::read_toml;
use crate::documents::toml_as_tree;
use crate::documents::toml_document;
use crate::hints::format_decode_error;
use crate::hints::report;
use crate::layers::cli_layer;
use crate::layers::cli_to_json;
use crate::layers::defaults_to_json;
use crate::layers::defaults_tree;
use crate::layers::env_scan;
use crate::layers::env_to_json;
use crate::layers::opt_view;
use crate::layers::CliOverrides;
use crate::layers::CliSpec;
use crate::layers::Environment;
use crate::source::ConfigSource;
use crate::tree::Node;
use crate::tree::Tree;
use crate::validate::ConfigError;
use crate::validate::ErrorSpec;
use vstd::prelude::*;

verus! {

/// The state after an optional layer is merged in; an absent layer changes
/// nothing.
pub open spec fn merge_some(m: Merged, layer: Option<Tree>, source: ConfigSource) -> Merged {
    match layer {
        Some(t) => m.merge(t, source),
        None => m,
    }
}

/// The state after the layer of the environment is merged in: the scan of
/// the environment gives the layer and the record of variables.
pub open spec fn merge_env(m: Merged, env: Map<Seq<char>, Seq<char>>) -> Merged {
    let scan = env_scan(env, m.env_vars);
    (Merged { env_vars: scan.vars, ..m }).merge(scan.layer, ConfigSource::Environment)
}

/// The state after all five layers are merged, the weakest first: defaults,
/// the TOML file, the JSON file, the environment, the command line.
pub open spec fn merged_layers(
    toml: Option<Tree>,
    json: Option<Tree>,
    env: Map<Seq<char>, Seq<char>>,
    cli: CliSpec,
) -> Merged {
    let defaults = Merged::start().merge(defaults_tree(), ConfigSource::Default);
    let files = merge_some(
        merge_some(defaults, toml, ConfigSource::TomlFile),
        json,
        ConfigSource::JsonFile,
    );
    merge_env(files, env).merge(cli_layer(cli), ConfigSource::Cli)
}

/// The view of an optional tree.
pub open spec fn opt_node(o: Option<&Node>) -> Option<Tree> {
    match o {
        Some(n) => Some(n@),
        None => None,
    }
}

/// The view of an optional tree that is owned.
pub open spec fn opt_layer(o: Option<Node>) -> Option<Tree> {
    match o {
        Some(n) => Some(n@),
        None => None,
    }
}

/// Merges the five layers in their fixed order; see [`merged_layers`].
/// Where the layers of the files are mappings, the merged tree is one; and
/// at every path that is marked the merged tree holds a leaf.
pub fn merge_layers(
    toml: Option<&Node>,
    json: Option<&Node>,
    env: &Environment,
    cli: &CliOverrides,
) -> (builder: ConfigBuilder)
    ensures
        builder.model() == merged_layers(opt_node(toml), opt_node(json), env@, cli@),
        builder.wf(),
        (toml is Some ==> toml->0@.is_mapping()) && (json is Some ==> json->0@.is_mapping())
            ==> builder.model().tree.is_mapping(),
        crate::laws::marks_have_values(builder.model()),
{
    let mut builder = ConfigBuilder::new();
    let defaults = defaults_to_json();
    builder.merge_layer(&defaults, ConfigSource::Default);
    match toml {
        Some(layer) => {
            builder.merge_layer(layer, ConfigSource::TomlFile);
        },
        None => {},
    }
    match json {
        Some(layer) => {
            builder.merge_layer(layer, ConfigSource::JsonFile);
        },
        None => {},
    }
    let env_json = env_to_json(&mut builder, env);
    builder.merge_layer(&env_json, ConfigSource::Environment);
    let cli_json = cli_to_json(cli);
    builder.merge_layer(&cli_json, ConfigSource::Cli);
    builder
}

/// What a merged state resolves to: the configuration where the merged tree
/// can be decoded, else a decode error whose message names the origin of the
/// value that cannot.
pub open spec fn resolution(
    m: Merged,
    toml_path: Option<Seq<char>>,
    json_path: Option<Seq<char>>,
) -> Result<ConfigSpec, ErrorSpec> {
    match parsed_of(m.tree) {
        Ok(p) => Ok(resolved(p, m.sources, toml_path, json_path)),
        Err(f) => Err(ErrorSpec::Decode { message: report(m, f) }),
    }
}

/// The view of the outcome of loading.
pub open spec fn outcome(r: Result<AppConfig, ConfigError>) -> Result<ConfigSpec, ErrorSpec> {
    match r {
        Ok(c) => Ok(c@),
        Err(e) => Err(e@),
    }
}

/// Decodes what the builder has merged and resolves it; see [`resolution`].
pub fn resolve(builder: ConfigBuilder, toml_path: Option<String>, json_path: Option<String>) -> (r:
    Result<AppConfig, ConfigError>)
    ensures
        outcome(r) == resolution(builder.model(), opt_view(toml_path), opt_view(json_path)),
{
    match decode(builder.config()) {
        Ok(parsed) => Ok(AppConfig::from_parsed(parsed, builder, toml_path, json_path)),
        Err(e) => Err(ConfigError::Decode { message: format_decode_error(e, &builder) }),
    }
}

/// A configuration file that was found: where it is and what it holds.
#[derive(Debug)]
pub struct ConfigFile {
    pub path: String,
    pub text: String,
}

/// The mathematical value of a [`ConfigFile`].
pub ghost struct FileSpec {
    pub path: Seq<char>,
    pub text: Seq<char>,
}

impl View for ConfigFile {
    type V = FileSpec;

    open spec fn view(&self) -> FileSpec {
        FileSpec { path: self.path@, text: self.text@ }
    }
}

/// The view of an optional file.
pub open spec fn opt_file(o: Option<ConfigFile>) -> Option<FileSpec> {
    match o {
        Some(f) => Some(f@),
        None => None,
    }
}

/// The path of an optional file.
pub open spec fn path_of(o: Option<FileSpec>) -> Option<Seq<char>> {
    match o {
        Some(f) => Some(f.path),
        None => None,
    }
}

/// The layer of an optional TOML file that parses.
pub open spec fn toml_layer(o: Option<FileSpec>) -> Option<Tree> {
    match o {
        Some(f) => match toml_document(f.text) {
            Ok(d) => Some(toml_as_tree(d)),
            Err(_) => None,
        },
        None => None,
    }
}

/// The layer of an optional JSON file that parses.
pub open spec fn json_layer(o: Option<FileSpec>) -> Option<Tree> {
    match o {
        Some(f) => match json_document(f.text) {
            Ok(t) => Some(t),
            Err(_) => None,
        },
        None => None,
    }
}

/// The parse error of an optional TOML file.
pub open spec fn toml_error(o: Option<FileSpec>) -> Option<ErrorSpec> {
    match o {
        Some(f) => match toml_document(f.text) {
            Ok(_) => None,
            Err(m) => Some(
                ErrorSpec::LayerParse { file: ConfigSource::TomlFile, path: f.path, message: m },
            ),
        },
        None => None,
    }
}

/// The parse error of an optional JSON file.
pub open spec fn json_error(o: Option<FileSpec>) -> Option<ErrorSpec> {
    match o {
        Some(f) => match json_document(f.text) {
            Ok(_) => None,
            Err(m) => Some(
                ErrorSpec::LayerParse { file: ConfigSource::JsonFile, path: f.path, message: m },
            ),
        },
        None => None,
    }
}

/// What loading comes to. A TOML file that does not parse ends it, then a
/// JSON file that does not parse; otherwise the layers are merged and
/// resolved.
pub open spec fn loaded(
    cli: CliSpec,
    toml: Option<FileSpec>,
    json: Option<FileSpec>,
    env: Map<Seq<char>, Seq<char>>,
) -> Result<ConfigSpec, ErrorSpec> {
    match toml_error(toml) {
        Some(e) => Err(e),
        None => match json_error(json) {
            Some(e) => Err(e),
            None => resolution(
                merged_layers(toml_layer(toml), json_layer(json), env, cli),
                path_of(toml),
                path_of(json),
            ),
        },
    }
}

/// Parses an optional file with `read` and hands out its layer and its path.
fn toml_file_layer(file: Option<ConfigFile>) -> (r: Result<(Option<Node>, Option<String>), ConfigError>)
    ensures
        match r {
            Ok((layer, path)) => toml_error(opt_file(file)) is None && opt_layer(layer)
                == toml_layer(opt_file(file)) && opt_view(path) == path_of(opt_file(file)),
            Err(e) => toml_error(opt_file(file)) == Some(e@),
        },
{
    match file {
        Some(f) => match read_toml(f.text.as_str()) {
            Ok(layer) => Ok((Some(layer), Some(f.path))),
            Err(message) => Err(
                ConfigError::LayerParse { file: ConfigSource::TomlFile, path: f.path, message },
            ),
        },
        None => Ok((None, None)),
    }
}

fn json_file_layer(file: Option<ConfigFile>) -> (r: Result<(Option<Node>, Option<String>), ConfigError>)
    ensures
        match r {
            Ok((layer, path)) => json_error(opt_file(file)) is None && opt_layer(layer)
                == json_layer(opt_file(file)) && opt_view(path) == path_of(opt_file(file)),
            Err(e) => json_error(opt_file(file)) == Some(e@),
        },
{
    match file {
        Some(f) => match read_json(f.text.as_str()) {
            Ok(layer) => Ok((Some(layer), Some(f.path))),
            Err(message) => Err(
                ConfigError::LayerParse { file: ConfigSource::JsonFile, path: f.path, message },
            ),
        },
        None => Ok((None, None)),
    }
}

impl AppConfig {
    /// Loads the configuration from the command-line flags, the two
    /// configuration files as far as they were found, and the environment;
    /// see [`loaded`].
    pub fn load_with_cli(
        cli: CliOverrides,
        toml: Option<ConfigFile>,
        json: Option<ConfigFile>,
        env: &Environment,
    ) -> (r: Result<AppConfig, ConfigError>)
        ensures
            outcome(r) == loaded(cli@, opt_file(toml), opt_file(json), env@),
    {
        let (toml_layer, toml_path) = match toml_file_layer(toml) {
            Ok(found) => found,
            Err(e) => {
                return Err(e);
            },
        };
        let (json_layer, json_path) = match json_file_layer(json) {
            Ok(found) => found,
            Err(e) => {
                return Err(e);
            },
        };
        let toml_ref = match &toml_layer {
            Some(n) => Some(n),
            None => None,
        };
        let json_ref = match &json_layer {
            Some(n) => Some(n),
            None => None,
        };
        let builder = merge_layers(toml_ref, json_ref, env, &cli);
        resolve(builder, toml_path, json_path)
    }
}

} // verus!
