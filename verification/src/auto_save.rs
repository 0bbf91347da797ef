//! Where the trace is saved when nobody says where: the default path, by
//! platform and environment, and the configuration built round it.

use crate::config::strings_view;
use crate::paths::{assemble, is_plain_name, parts_of, parts_view, PartsView, PathParts};
use crate::text::{ends_with, text_view};
use vstd::prelude::*;

verus! {

/// The kind of host that the process runs on.
#[derive(Debug, Clone, Copy, PartialEq, Eq, Structural)]
pub enum Platform {
    Windows,
    MacOs,
    Linux,
    Other,
}

/// What the process environment says about places for files. Each variable
/// is `None` where it is not set or is not Unicode.
#[derive(Debug)]
pub struct PathEnvironment {
    pub platform: Platform,
    /// `TRACE_OUTPUT_FILE`: the path to use, whatever else is set.
    pub trace_output_file: Option<String>,
    /// `APPDATA`.
    pub appdata: Option<String>,
    /// `XDG_DATA_HOME`.
    pub xdg_data_home: Option<String>,
    /// `HOME`.
    pub home: Option<String>,
    /// The working directory, where it can be told.
    pub current_dir: Option<String>,
    /// The directory for temporary files.
    pub temp_dir: String,
}

/// The mathematical value of a [`PathEnvironment`].
pub ghost struct EnvironmentView {
    pub platform: Platform,
    pub trace_output_file: Option<Seq<char>>,
    pub appdata: Option<Seq<char>>,
    pub xdg_data_home: Option<Seq<char>>,
    pub home: Option<Seq<char>>,
    pub current_dir: Option<Seq<char>>,
    pub temp_dir: Seq<char>,
}

impl View for PathEnvironment {
    type V = EnvironmentView;

    open spec fn view(&self) -> EnvironmentView {
        EnvironmentView {
            platform: self.platform,
            trace_output_file: text_view(self.trace_output_file),
            appdata: text_view(self.appdata),
            xdg_data_home: text_view(self.xdg_data_home),
            home: text_view(self.home),
            current_dir: text_view(self.current_dir),
            temp_dir: self.temp_dir@,
        }
    }
}

/// The directory for this application's data, by platform: under `APPDATA`
/// on Windows, under `HOME` on macOS, under `XDG_DATA_HOME` or else `HOME`
/// on Linux, under `HOME` elsewhere. `None` where the variable is missing.
pub open spec fn app_data_dir_of(env: EnvironmentView) -> Option<PartsView> {
    match env.platform {
        Platform::Windows => match env.appdata {
            Some(a) => Some(PartsView { base: a, names: seq!["rust-tracer"@] }),
            None => None,
        },
        Platform::MacOs => match env.home {
            Some(h) => Some(
                PartsView {
                    base: h,
                    names: seq!["Library"@, "Application Support"@, "rust-tracer"@],
                },
            ),
            None => None,
        },
        Platform::Linux => match env.xdg_data_home {
            Some(x) => Some(PartsView { base: x, names: seq!["rust-tracer"@] }),
            None => match env.home {
                Some(h) => Some(
                    PartsView { base: h, names: seq![".local"@, "share"@, "rust-tracer"@] },
                ),
                None => None,
            },
        },
        Platform::Other => match env.home {
            Some(h) => Some(PartsView { base: h, names: seq![".rust-tracer"@] }),
            None => None,
        },
    }
}

/// The name of the trace file in whatever directory it is put.
pub open spec fn trace_file_name() -> Seq<char> {
    "trace_output.json"@
}

/// The trace file in a directory.
pub open spec fn trace_file_in(dir: PartsView) -> PartsView {
    PartsView { base: dir.base, names: dir.names.push(trace_file_name()) }
}

/// The default path of the trace file. In this order: the path that the
/// environment names outright, as it is; the trace file in the
/// application's data directory; in the working directory; in the
/// directory for temporary files.
pub open spec fn default_path_of(env: EnvironmentView) -> PartsView {
    match env.trace_output_file {
        Some(path) => PartsView { base: path, names: Seq::empty() },
        None => match app_data_dir_of(env) {
            Some(dir) => trace_file_in(dir),
            None => match env.current_dir {
                Some(dir) => trace_file_in(PartsView { base: dir, names: Seq::empty() }),
                None => trace_file_in(PartsView { base: env.temp_dir, names: Seq::empty() }),
            },
        },
    }
}

/// One name.
fn one_name(name: &str) -> (names: Vec<String>)
    ensures
        strings_view(names@) == seq![name@],
{
    let mut names: Vec<String> = Vec::new();
    names.push(name.to_owned());
    assert(strings_view(names@) =~= seq![name@]);
    names
}

/// Three names.
fn three_names(first: &str, second: &str, third: &str) -> (names: Vec<String>)
    ensures
        strings_view(names@) == seq![first@, second@, third@],
{
    let mut names: Vec<String> = Vec::new();
    names.push(first.to_owned());
    names.push(second.to_owned());
    names.push(third.to_owned());
    assert(strings_view(names@) =~= seq![first@, second@, third@]);
    names
}

/// The directory for this application's data, in parts, where the
/// environment tells it.
pub fn app_data_dir_parts(env: &PathEnvironment) -> (dir: Option<PathParts>)
    ensures
        parts_view(dir) == app_data_dir_of(env@),
{
    match env.platform {
        Platform::Windows => match &env.appdata {
            Some(a) => Some(parts_of(a.as_str(), one_name("rust-tracer"))),
            None => None,
        },
        Platform::MacOs => match &env.home {
            Some(h) => Some(
                parts_of(h.as_str(), three_names("Library", "Application Support", "rust-tracer")),
            ),
            None => None,
        },
        Platform::Linux => match &env.xdg_data_home {
            Some(x) => Some(parts_of(x.as_str(), one_name("rust-tracer"))),
            None => match &env.home {
                Some(h) => Some(
                    parts_of(h.as_str(), three_names(".local", "share", "rust-tracer")),
                ),
                None => None,
            },
        },
        Platform::Other => match &env.home {
            Some(h) => Some(parts_of(h.as_str(), one_name(".rust-tracer"))),
            None => None,
        },
    }
}

/// The trace file in a directory.
fn trace_file_parts(dir: PathParts) -> (parts: PathParts)
    ensures
        parts@ == trace_file_in(dir@),
{
    let mut parts = dir;
    parts.names.push("trace_output.json".to_owned());
    assert(parts@.names =~= dir@.names.push(trace_file_name()));
    parts
}

/// The default path of the trace file, in parts.
pub fn default_path_parts(env: &PathEnvironment) -> (parts: PathParts)
    ensures
        parts@ == default_path_of(env@),
{
    match &env.trace_output_file {
        Some(path) => {
            let parts = parts_of(path.as_str(), Vec::new());
            assert(parts@.names =~= Seq::empty());
            parts
        },
        None => match app_data_dir_parts(env) {
            Some(dir) => trace_file_parts(dir),
            None => {
                let dir = match &env.current_dir {
                    Some(dir) => parts_of(dir.as_str(), Vec::new()),
                    None => parts_of(env.temp_dir.as_str(), Vec::new()),
                };
                assert(dir@.names =~= Seq::empty());
                trace_file_parts(dir)
            },
        },
    }
}

/// The names that this library puts into paths are plain names.
pub proof fn lemma_names_are_plain(env: EnvironmentView)
    ensures
        is_plain_name(trace_file_name()),
        app_data_dir_of(env) matches Some(dir) ==> dir.names.len() > 0 && is_plain_name(
            dir.names.last(),
        ),
        env.trace_output_file is None ==> default_path_of(env).names.len() > 0
            && default_path_of(env).names.last() == trace_file_name(),
{
    reveal_strlit("trace_output.json");
    reveal_strlit("rust-tracer");
    reveal_strlit(".rust-tracer");
}

/// How automatic saving is set up: where the streamed file goes, and which
/// hooks guard it.
#[derive(Debug)]
pub struct AutoSaveConfig {
    pub path: String,
    pub enable_panic_hook: bool,
    pub enable_exit_hook: bool,
}

/// The mathematical value of an [`AutoSaveConfig`].
pub ghost struct AutoSaveView {
    pub path: Seq<char>,
    pub enable_panic_hook: bool,
    pub enable_exit_hook: bool,
}

impl View for AutoSaveConfig {
    type V = AutoSaveView;

    open spec fn view(&self) -> AutoSaveView {
        AutoSaveView {
            path: self.path@,
            enable_panic_hook: self.enable_panic_hook,
            enable_exit_hook: self.enable_exit_hook,
        }
    }
}

impl Clone for AutoSaveConfig {
    fn clone(&self) -> (copy: AutoSaveConfig)
        ensures
            copy@ == self@,
    {
        AutoSaveConfig {
            path: self.path.clone(),
            enable_panic_hook: self.enable_panic_hook,
            enable_exit_hook: self.enable_exit_hook,
        }
    }
}

impl AutoSaveConfig {
    /// A configuration for the given path, with both hooks.
    pub fn new(path: String) -> (config: AutoSaveConfig)
        ensures
            config@ == (AutoSaveView {
                path: path@,
                enable_panic_hook: true,
                enable_exit_hook: true,
            }),
    {
        AutoSaveConfig { path, enable_panic_hook: true, enable_exit_hook: true }
    }

    /// The same configuration without hooks.
    pub fn no_hooks(self) -> (config: AutoSaveConfig)
        ensures
            config@ == (AutoSaveView {
                path: self@.path,
                enable_panic_hook: false,
                enable_exit_hook: false,
            }),
    {
        let mut config = self;
        config.enable_panic_hook = false;
        config.enable_exit_hook = false;
        config
    }

    /// The directory for this application's data, where the environment
    /// tells it: the parts that [`app_data_dir_parts`] gives, put together
    /// as the platform joins them. It ends with the last of the names.
    pub fn get_app_data_dir(env: &PathEnvironment) -> (dir: Option<String>)
        ensures
            dir is Some <==> app_data_dir_of(env@) is Some,
            dir matches Some(p) ==> ends_with(p@, app_data_dir_of(env@)->Some_0.names.last()),
    {
        proof {
            lemma_names_are_plain(env@);
        }
        match app_data_dir_parts(env) {
            Some(parts) => Some(assemble(&parts)),
            None => None,
        }
    }

    /// The default path of the trace file: the parts that
    /// [`default_path_parts`] gives, put together as the platform joins
    /// them. A path that the environment names outright is taken as it is;
    /// any other ends with the trace file's name.
    pub fn default_path(env: &PathEnvironment) -> (path: String)
        ensures
            env@.trace_output_file matches Some(given) ==> path@ == given,
            env@.trace_output_file is None ==> ends_with(path@, trace_file_name()),
    {
        proof {
            lemma_names_are_plain(env@);
        }
        assemble(&default_path_parts(env))
    }

    /// The configuration for the default path, with both hooks.
    pub fn from_environment(env: &PathEnvironment) -> (config: AutoSaveConfig)
        ensures
            config@.enable_panic_hook && config@.enable_exit_hook,
            env@.trace_output_file matches Some(given) ==> config@.path == given,
            env@.trace_output_file is None ==> ends_with(config@.path, trace_file_name()),
    {
        AutoSaveConfig::new(AutoSaveConfig::default_path(env))
    }

    /// The configuration to use once the directories above the default
    /// path were asked for: the default path, which is given, where they
    /// stand; else the trace file's name alone, which puts the file into
    /// the working directory. `directories_ready` says whether they stand.
    /// Both hooks are on either way.
    pub fn with_directory_creation(default_path: String, directories_ready: bool) -> (config:
        AutoSaveConfig)
        ensures
            config@ == (AutoSaveView {
                path: if directories_ready {
                    default_path@
                } else {
                    trace_file_name()
                },
                enable_panic_hook: true,
                enable_exit_hook: true,
            }),
    {
        if directories_ready {
            AutoSaveConfig::new(default_path)
        } else {
            AutoSaveConfig::new("trace_output.json".to_owned())
        }
    }
}

} // verus!
