//! Setting a project up for tracing: telling the directory of the trace
//! tool from others, and naming its crates.

use crate::paths::{is_plain_name, path_join};
use crate::text::ends_with;
use vstd::prelude::*;
use vstd::string::StringExecFns;

verus! {

/// What was found in a directory that may be the root of the trace tool.
#[derive(Debug, Clone, Copy, PartialEq, Eq, Structural)]
pub struct ToolRootProbe {
    /// Whether it holds a directory `trace_runtime`.
    pub has_runtime: bool,
    /// Whether it holds a directory `trace_macro`.
    pub has_macro: bool,
    /// Whether it holds a directory `trace_common`.
    pub has_common: bool,
    /// Whether it holds a `Cargo.toml`.
    pub has_manifest: bool,
}

/// Whether a directory is the root of the trace tool: it holds the three
/// crates and the manifest of their workspace.
pub fn is_trace_tool_root(probe: ToolRootProbe) -> (b: bool)
    ensures
        b == (probe.has_runtime && probe.has_macro && probe.has_common && probe.has_manifest),
{
    let has_all_components = probe.has_runtime && probe.has_macro && probe.has_common;
    has_all_components && probe.has_manifest
}

/// Why a directory is not the root of the trace tool.
#[derive(Debug)]
pub enum SetupError {
    /// The directory does not exist.
    PathMissing { path: String },
    /// The directory lacks one of the crates.
    ComponentMissing { component: String, path: String },
    /// The directory lacks the manifest of the workspace.
    ManifestMissing { path: String },
}

/// The mathematical value of a [`SetupError`].
pub ghost enum SetupErrorView {
    PathMissing { path: Seq<char> },
    ComponentMissing { component: Seq<char>, path: Seq<char> },
    ManifestMissing { path: Seq<char> },
}

impl View for SetupError {
    type V = SetupErrorView;

    open spec fn view(&self) -> SetupErrorView {
        match self {
            SetupError::PathMissing { path } => SetupErrorView::PathMissing { path: path@ },
            SetupError::ComponentMissing {
                component,
                path,
            } => SetupErrorView::ComponentMissing { component: component@, path: path@ },
            SetupError::ManifestMissing { path } => SetupErrorView::ManifestMissing {
                path: path@,
            },
        }
    }
}

impl SetupError {
    /// The error as a line of text.
    pub fn message(&self) -> (text: String)
        ensures
            text@ == match self@ {
                SetupErrorView::PathMissing { path } => "Trace tool path does not exist: "@ + path,
                SetupErrorView::ComponentMissing {
                    component,
                    path,
                } => "Missing required component '"@ + component + "' in trace tool path: "@
                    + path,
                SetupErrorView::ManifestMissing {
                    path,
                } => "Missing workspace Cargo.toml in trace tool path: "@ + path,
            },
    {
        match self {
            SetupError::PathMissing { path } => {
                let mut text = "Trace tool path does not exist: ".to_owned();
                text.append(path.as_str());
                text
            },
            SetupError::ComponentMissing { component, path } => {
                let mut text = "Missing required component '".to_owned();
                text.append(component.as_str());
                text.append("' in trace tool path: ");
                text.append(path.as_str());
                text
            },
            SetupError::ManifestMissing { path } => {
                let mut text = "Missing workspace Cargo.toml in trace tool path: ".to_owned();
                text.append(path.as_str());
                text
            },
        }
    }
}

/// What is wrong with a directory as root of the trace tool, if anything:
/// that it does not exist; else the first crate that it lacks, the runtime
/// before the macro before the common crate; else that it lacks the
/// manifest.
pub open spec fn tool_path_fault(path: Seq<char>, present: bool, probe: ToolRootProbe) -> Option<
    SetupErrorView,
> {
    if !present {
        Some(SetupErrorView::PathMissing { path })
    } else if !probe.has_runtime {
        Some(SetupErrorView::ComponentMissing { component: "trace_runtime"@, path })
    } else if !probe.has_macro {
        Some(SetupErrorView::ComponentMissing { component: "trace_macro"@, path })
    } else if !probe.has_common {
        Some(SetupErrorView::ComponentMissing { component: "trace_common"@, path })
    } else if !probe.has_manifest {
        Some(SetupErrorView::ManifestMissing { path })
    } else {
        None
    }
}

/// Checks that a directory is the root of the trace tool.
pub fn validate_trace_tool_path(trace_tool_path: &str, present: bool, probe: ToolRootProbe) -> (r:
    Result<(), SetupError>)
    ensures
        match r {
            Ok(()) => tool_path_fault(trace_tool_path@, present, probe) is None,
            Err(e) => tool_path_fault(trace_tool_path@, present, probe) == Some(e@),
        },
{
    if !present {
        return Err(SetupError::PathMissing { path: trace_tool_path.to_owned() });
    }
    if !probe.has_runtime {
        return Err(
            SetupError::ComponentMissing {
                component: "trace_runtime".to_owned(),
                path: trace_tool_path.to_owned(),
            },
        );
    }
    if !probe.has_macro {
        return Err(
            SetupError::ComponentMissing {
                component: "trace_macro".to_owned(),
                path: trace_tool_path.to_owned(),
            },
        );
    }
    if !probe.has_common {
        return Err(
            SetupError::ComponentMissing {
                component: "trace_common".to_owned(),
                path: trace_tool_path.to_owned(),
            },
        );
    }
    if !probe.has_manifest {
        return Err(SetupError::ManifestMissing { path: trace_tool_path.to_owned() });
    }
    Ok(())
}

/// A directory on the way upwards, with what was found there.
#[derive(Debug)]
pub struct ToolRootCandidate {
    pub dir: String,
    pub probe: ToolRootProbe,
}

/// Whether a candidate is the root of the trace tool.
pub open spec fn is_tool_root(c: ToolRootCandidate) -> bool {
    c.probe.has_runtime && c.probe.has_macro && c.probe.has_common && c.probe.has_manifest
}

/// The first root of the trace tool among the candidates from `from` up
/// to, and without, `limit`; `limit` where there is none.
pub open spec fn first_tool_root(candidates: Seq<ToolRootCandidate>, from: int, limit: int) -> int
    decreases limit - from,
{
    if from < 0 || from >= limit || from >= candidates.len() {
        limit
    } else if is_tool_root(candidates[from]) {
        from
    } else {
        first_tool_root(candidates, from + 1, limit)
    }
}

/// How many directories a search upwards looks at.
pub open spec fn search_depth() -> int {
    15
}

/// The root of the trace tool at or above a directory. `candidates` holds
/// the directory and its parents, nearest first; the search looks at the
/// first fifteen and takes the nearest that is a root.
pub fn search_upward_for_trace_tool(candidates: &Vec<ToolRootCandidate>) -> (found: Option<String>)
    ensures
        match found {
            Some(dir) => {
                let at = first_tool_root(candidates@, 0, search_depth());
                at < search_depth() && at < candidates.len() && dir@ == candidates@[at].dir@
            },
            None => first_tool_root(candidates@, 0, search_depth()) == search_depth(),
        },
{
    let mut i: usize = 0;
    while i < 15 && i < candidates.len()
        invariant
            i <= 15,
            i <= candidates.len(),
            first_tool_root(candidates@, 0, search_depth()) == first_tool_root(
                candidates@,
                i as int,
                search_depth(),
            ),
        decreases 15 - i,
    {
        if is_trace_tool_root(candidates[i].probe) {
            return Some(candidates[i].dir.clone());
        }
        i += 1;
    }
    None
}

/// The crates of the trace tool that a traced project depends on.
#[derive(Debug)]
pub struct RelativePaths {
    pub trace_runtime: String,
    pub trace_common: String,
}

/// The crates of the trace tool, each under its name in the tool's root,
/// which is given in canonical form: the root joined with `trace_runtime`
/// and with `trace_common`, as the platform joins them. Each path ends
/// with the name of its crate.
pub fn calculate_relative_paths(canonical_root: &str) -> (paths: RelativePaths)
    ensures
        ends_with(paths.trace_runtime@, "trace_runtime"@),
        ends_with(paths.trace_common@, "trace_common"@),
{
    proof {
        reveal_strlit("trace_runtime");
        reveal_strlit("trace_common");
        assert(is_plain_name("trace_runtime"@));
        assert(is_plain_name("trace_common"@));
    }
    RelativePaths {
        trace_runtime: path_join(canonical_root, "trace_runtime"),
        trace_common: path_join(canonical_root, "trace_common"),
    }
}

} // verus!
