//! How far tracing spreads from a traced function into the calls it makes,
//! and the source of the configuration module that a traced project gets.

use crate::json::{append_decimal, decimal};
use vstd::prelude::*;
use vstd::string::StringExecFns;

verus! {

/// How tracing spreads from a traced function into the functions it calls.
#[derive(Debug)]
pub struct PropagationConfig {
    pub enabled: bool,
    pub max_depth: Option<u32>,
    pub exclude_patterns: Vec<String>,
    pub user_code_only: bool,
}

/// The mathematical value of a [`PropagationConfig`].
pub ghost struct PropagationView {
    pub enabled: bool,
    pub max_depth: Option<u32>,
    pub exclude_patterns: Seq<Seq<char>>,
    pub user_code_only: bool,
}

/// The value of a row of strings.
pub open spec fn strings_view(strings: Seq<String>) -> Seq<Seq<char>> {
    Seq::new(strings.len(), |i: int| strings[i]@)
}

impl View for PropagationConfig {
    type V = PropagationView;

    open spec fn view(&self) -> PropagationView {
        PropagationView {
            enabled: self.enabled,
            max_depth: self.max_depth,
            exclude_patterns: strings_view(self.exclude_patterns@),
            user_code_only: self.user_code_only,
        }
    }
}

/// The patterns that are left out unless others are given.
pub open spec fn default_excludes() -> Seq<Seq<char>> {
    seq!["std::"@, "core::"@]
}

/// A copy of a row of strings.
pub fn copy_strings(strings: &Vec<String>) -> (copy: Vec<String>)
    ensures
        strings_view(copy@) == strings_view(strings@),
{
    let mut copy: Vec<String> = Vec::new();
    let mut i: usize = 0;
    while i < strings.len()
        invariant
            i <= strings.len(),
            copy@.len() == i,
            forall|k: int| 0 <= k < i ==> copy@[k]@ == strings@[k]@,
        decreases strings.len() - i,
    {
        copy.push(strings[i].clone());
        i += 1;
    }
    assert(strings_view(copy@) =~= strings_view(strings@));
    copy
}

impl Default for PropagationConfig {
    /// Propagation switched off, ten levels deep at most, the standard
    /// library left out, user code only.
    fn default() -> (config: PropagationConfig)
        ensures
            config@ == (PropagationView {
                enabled: false,
                max_depth: Some(10u32),
                exclude_patterns: default_excludes(),
                user_code_only: true,
            }),
    {
        let mut exclude_patterns: Vec<String> = Vec::new();
        exclude_patterns.push("std::".to_owned());
        exclude_patterns.push("core::".to_owned());
        assert(strings_view(exclude_patterns@) =~= default_excludes());
        PropagationConfig {
            enabled: false,
            max_depth: Some(10),
            exclude_patterns,
            user_code_only: true,
        }
    }
}

impl Clone for PropagationConfig {
    fn clone(&self) -> (copy: PropagationConfig)
        ensures
            copy@ == self@,
    {
        PropagationConfig {
            enabled: self.enabled,
            max_depth: self.max_depth,
            exclude_patterns: copy_strings(&self.exclude_patterns),
            user_code_only: self.user_code_only,
        }
    }
}

impl PropagationConfig {
    /// The default configuration: propagation switched off.
    pub fn new() -> (config: PropagationConfig)
        ensures
            config@ == (PropagationView {
                enabled: false,
                max_depth: Some(10u32),
                exclude_patterns: default_excludes(),
                user_code_only: true,
            }),
    {
        PropagationConfig::default()
    }

    /// The default configuration with propagation switched on.
    pub fn enabled() -> (config: PropagationConfig)
        ensures
            config@ == (PropagationView {
                enabled: true,
                max_depth: Some(10u32),
                exclude_patterns: default_excludes(),
                user_code_only: true,
            }),
    {
        let mut config = PropagationConfig::default();
        config.enabled = true;
        config
    }

    /// The same configuration with another depth.
    pub fn with_max_depth(self, depth: u32) -> (config: PropagationConfig)
        ensures
            config@ == (PropagationView { max_depth: Some(depth), ..self@ }),
    {
        let mut config = self;
        config.max_depth = Some(depth);
        config
    }

    /// The same configuration with other patterns to leave out.
    pub fn with_exclude_patterns(self, patterns: Vec<String>) -> (config: PropagationConfig)
        ensures
            config@ == (PropagationView { exclude_patterns: strings_view(patterns@), ..self@ }),
    {
        let mut config = self;
        config.exclude_patterns = patterns;
        config
    }

    /// The same configuration, for user code only or for all code.
    pub fn with_user_code_only(self, user_only: bool) -> (config: PropagationConfig)
        ensures
            config@ == (PropagationView { user_code_only: user_only, ..self@ }),
    {
        let mut config = self;
        config.user_code_only = user_only;
        config
    }
}

/// A row of strings as `Debug` writes it.
pub uninterp spec fn debug_list(strings: Seq<Seq<char>>) -> Seq<char>;

/// A row of strings as the standard library's `Debug` formatting writes
/// it: the `{:?}` of a `Vec<String>`.
#[verifier::external_body]
fn debug_list_text(strings: &Vec<String>) -> (text: String)
    ensures
        text@ == debug_list(strings_view(strings@)),
{
    format!("{:?}", strings)
}

/// The comment for a project without propagation.
pub open spec fn disabled_comment() -> Seq<char> {
    "// Propagation instrumentation: disabled\n// Only manually traced functions will be recorded\n\n"@
}

/// The depth as the comment names it.
pub open spec fn depth_text(max_depth: Option<u32>) -> Seq<char> {
    match max_depth {
        Some(d) => decimal(d as nat),
        None => "unlimited"@,
    }
}

/// A truth value as the comment names it.
pub open spec fn bool_text(b: bool) -> Seq<char> {
    if b {
        "true"@
    } else {
        "false"@
    }
}

/// The comment that heads the configuration module: the settings of a
/// propagation that is switched on, else a note that there is none.
pub open spec fn propagation_comment(config: Option<PropagationView>) -> Seq<char> {
    match config {
        Some(c) => if c.enabled {
            "// Propagation instrumentation config:\n// - Enabled: true\n// - Max depth: "@
                + depth_text(c.max_depth) + "\n// - Exclude patterns: "@ + debug_list(
                c.exclude_patterns,
            ) + "\n// - User code only: "@ + bool_text(c.user_code_only)
                + "\n//\n// Functions with propagation instrumentation automatically trace all internal calls\n// No need to manually add trace macros to each function\n\n"@
        } else {
            disabled_comment()
        },
        None => disabled_comment(),
    }
}

/// The value of an optional configuration.
pub open spec fn config_view(config: Option<&PropagationConfig>) -> Option<PropagationView> {
    match config {
        Some(c) => Some(c@),
        None => None,
    }
}

/// The comment that heads the configuration module.
pub fn generate_propagation_comment(propagation_config: Option<&PropagationConfig>) -> (text:
    String)
    ensures
        text@ == propagation_comment(config_view(propagation_config)),
{
    match propagation_config {
        Some(config) => {
            if config.enabled {
                let mut text =
                    "// Propagation instrumentation config:\n// - Enabled: true\n// - Max depth: ".to_owned();
                match config.max_depth {
                    Some(d) => { append_decimal(&mut text, d as u64); },
                    None => { text.append("unlimited"); },
                }
                text.append("\n// - Exclude patterns: ");
                let patterns = debug_list_text(&config.exclude_patterns);
                text.append(patterns.as_str());
                text.append("\n// - User code only: ");
                if config.user_code_only {
                    text.append("true");
                } else {
                    text.append("false");
                }
                text.append(
                    "\n//\n// Functions with propagation instrumentation automatically trace all internal calls\n// No need to manually add trace macros to each function\n\n",
                );
                text
            } else {
                "// Propagation instrumentation: disabled\n// Only manually traced functions will be recorded\n\n".to_owned()
            }
        },
        None => "// Propagation instrumentation: disabled\n// Only manually traced functions will be recorded\n\n".to_owned(),
    }
}

/// What stands before the comment in every configuration module.
pub open spec fn config_head() -> Seq<char> {
    "// Auto-generated trace configuration file\n// Created by trace_cli tool\n\n"@
}

/// The configuration module, from its imports to the output path, for a
/// project that names its trace file.
pub open spec fn with_output_before_path() -> Seq<char> {
    "use std::path::Path;\nuse trace_runtime::tracer::interface::{enable_auto_save_with_path, TraceError};\n\n/// Initialize tracing system with custom output file path\npub fn init_tracing() -> Result<(), TraceError> {\n    let output_path = Path::new(\""@
}

/// The configuration module behind the output path.
pub open spec fn with_output_after_path() -> Seq<char> {
    "\");\n    \n    // Use the improved API that handles directory creation automatically\n    enable_auto_save_with_path(output_path)?;\n    eprintln!(\"🔄 Tracing initialized, output: {}\", output_path.display());\n    Ok(())\n}\n\n/// Convenience initialization function that ignores errors\npub fn init_tracing_ignore_errors() {\n    if let Err(e) = init_tracing() {\n        eprintln!(\"⚠️  Failed to initialize tracing: {}\", e);\n    }\n}\n"@
}

/// The configuration module behind its comment, for a project that leaves
/// the place of its trace file open.
pub open spec fn default_config_body() -> Seq<char> {
    "use trace_runtime::tracer::interface::{enable_auto_save_default, TraceError};\n\n/// Initialize tracing system with intelligent defaults\n/// \n/// This uses platform-appropriate directories and avoids hardcoded paths.\n/// Path resolution priority:\n/// 1. TRACE_OUTPUT_FILE environment variable\n/// 2. Platform-specific application data directory  \n/// 3. Current working directory (trace_output.json)\npub fn init_tracing() -> Result<(), TraceError> {\n    // Use the improved default API that follows platform conventions\n    enable_auto_save_default()?;\n    eprintln!(\"🔄 Tracing initialized with intelligent defaults\");\n    Ok(())\n}\n\n/// Convenience initialization function that ignores errors\npub fn init_tracing_ignore_errors() {\n    if let Err(e) = init_tracing() {\n        eprintln!(\"⚠️  Failed to initialize tracing: {}\", e);\n    }\n}\n"@
}

/// The source of a configuration module that streams to `output_path`.
pub open spec fn config_with_output(output_path: Seq<char>, propagation_info: Seq<char>) -> Seq<
    char,
> {
    config_head() + propagation_info + with_output_before_path() + output_path
        + with_output_after_path()
}

/// The source of a configuration module that streams to the default path.
pub open spec fn config_default(propagation_info: Seq<char>) -> Seq<char> {
    config_head() + propagation_info + default_config_body()
}

/// The source of a configuration module that streams to `output_path`.
pub fn generate_config_with_output(output_path: &str, propagation_info: &str) -> (text: String)
    ensures
        text@ == config_with_output(output_path@, propagation_info@),
{
    let mut text =
        "// Auto-generated trace configuration file\n// Created by trace_cli tool\n\n".to_owned();
    text.append(propagation_info);
    text.append(
        "use std::path::Path;\nuse trace_runtime::tracer::interface::{enable_auto_save_with_path, TraceError};\n\n/// Initialize tracing system with custom output file path\npub fn init_tracing() -> Result<(), TraceError> {\n    let output_path = Path::new(\"",
    );
    text.append(output_path);
    text.append(
        "\");\n    \n    // Use the improved API that handles directory creation automatically\n    enable_auto_save_with_path(output_path)?;\n    eprintln!(\"🔄 Tracing initialized, output: {}\", output_path.display());\n    Ok(())\n}\n\n/// Convenience initialization function that ignores errors\npub fn init_tracing_ignore_errors() {\n    if let Err(e) = init_tracing() {\n        eprintln!(\"⚠️  Failed to initialize tracing: {}\", e);\n    }\n}\n",
    );
    text
}

/// The source of a configuration module that streams to the default path.
pub fn generate_config_default(propagation_info: &str) -> (text: String)
    ensures
        text@ == config_default(propagation_info@),
{
    let mut text =
        "// Auto-generated trace configuration file\n// Created by trace_cli tool\n\n".to_owned();
    text.append(propagation_info);
    text.append(
        "use trace_runtime::tracer::interface::{enable_auto_save_default, TraceError};\n\n/// Initialize tracing system with intelligent defaults\n/// \n/// This uses platform-appropriate directories and avoids hardcoded paths.\n/// Path resolution priority:\n/// 1. TRACE_OUTPUT_FILE environment variable\n/// 2. Platform-specific application data directory  \n/// 3. Current working directory (trace_output.json)\npub fn init_tracing() -> Result<(), TraceError> {\n    // Use the improved default API that follows platform conventions\n    enable_auto_save_default()?;\n    eprintln!(\"🔄 Tracing initialized with intelligent defaults\");\n    Ok(())\n}\n\n/// Convenience initialization function that ignores errors\npub fn init_tracing_ignore_errors() {\n    if let Err(e) = init_tracing() {\n        eprintln!(\"⚠️  Failed to initialize tracing: {}\", e);\n    }\n}\n",
    );
    text
}

/// The source of the configuration module of a traced project: for the
/// given trace file, or for the default path where none is given, headed
/// by the comment on propagation.
pub fn trace_config_source(
    trace_output: Option<&str>,
    propagation_config: Option<&PropagationConfig>,
) -> (text: String)
    ensures
        text@ == match trace_output {
            Some(path) => config_with_output(
                path@,
                propagation_comment(config_view(propagation_config)),
            ),
            None => config_default(propagation_comment(config_view(propagation_config))),
        },
{
    let info = generate_propagation_comment(propagation_config);
    match trace_output {
        Some(path) => generate_config_with_output(path, info.as_str()),
        None => generate_config_default(info.as_str()),
    }
}

} // verus!
