//! Plain data for the conversion command line: the argument record and the
//! closed sets of configuration kinds and serialization formats it names.
//! The I/O shell around the library parses its own argument surface and
//! hands these values in.

use vstd::prelude::*;

verus! {

/// The configuration type a conversion operates on.
#[derive(Clone, Copy, Debug, PartialEq, Eq, Structural)]
pub enum MoonConfig {
    Project,
    Workspace,
    Template,
    Toolchain,
    Task,
}

/// A configuration serialization format.
#[derive(Clone, Copy, Debug, PartialEq, Eq, Structural)]
pub enum SchemaFormat {
    Json,
    Pkl,
    Toml,
    Yaml,
}

/// Convert command arguments, as plain values: paths are carried as text.
#[derive(Clone, Debug)]
pub struct ConvertArgs {
    /// The configuration type being converted.
    pub config_type: MoonConfig,
    /// The path of the input configuration file.
    pub input: String,
    /// The path of the output file; standard output when absent.
    pub output: Option<String>,
    /// The input format, when not auto-detected.
    pub from: Option<SchemaFormat>,
    /// The output format, when the defaults are not wanted.
    pub to: Option<SchemaFormat>,
    /// Whether an existing output file may be overwritten.
    pub force: bool,
}

} // verus!
