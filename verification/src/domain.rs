//! The records that the manager shows and passes around.
use vstd::prelude::*;

verus! {

/// Versions of the tools found on the machine.
pub struct RuntimeInfo {
    pub python: String,
    pub conda: String,
    pub platform: String,
}

/// One Conda environment.
pub struct CondaEnvironment {
    pub name: String,
    pub prefix: String,
    pub python: String,
    pub package_count: usize,
    pub active: bool,
}

/// What the start page shows.
pub struct Overview {
    pub runtime: RuntimeInfo,
    pub environments: Vec<CondaEnvironment>,
    pub checked_at: String,
}

/// The user's settings; every field may be unset.
pub struct AppSettings {
    pub uv_path: Option<String>,
    pub conda_path: Option<String>,
    pub tagline: Option<String>,
    pub compact_mode: Option<bool>,
    pub wallpaper: Option<String>,
    pub primary: Option<String>,
    pub secondary: Option<String>,
    pub ink: Option<String>,
}

impl Default for AppSettings {
    /// Settings with nothing set.
    fn default() -> (r: AppSettings)
        ensures
            r.uv_path is None && r.conda_path is None && r.tagline is None && r.compact_mode is None
                && r.wallpaper is None && r.primary is None && r.secondary is None && r.ink is None,
    {
        AppSettings {
            uv_path: None,
            conda_path: None,
            tagline: None,
            compact_mode: None,
            wallpaper: None,
            primary: None,
            secondary: None,
            ink: None,
        }
    }
}

/// The environment a package operation works on.
pub struct EnvironmentTarget {
    pub target_type: String,
    pub name: Option<String>,
    pub path: Option<String>,
    pub manager: Option<String>,
}

impl Default for EnvironmentTarget {
    /// An empty target type with nothing else set.
    fn default() -> (r: EnvironmentTarget)
        ensures
            r.target_type@ == Seq::<char>::empty() && r.name is None && r.path is None && r.manager is None,
    {
        EnvironmentTarget { target_type: String::new(), name: None, path: None, manager: None }
    }
}

/// A venv or uv virtual environment.
pub struct VirtualEnvironment {
    pub name: String,
    pub path: String,
    pub manager: String,
    pub python_version: String,
}

/// A Python that uv installed.
pub struct UvPythonInstallation {
    pub version: String,
    pub path: String,
}

/// An installed package as pip lists it.
pub struct Package {
    pub name: String,
    pub version: String,
}

/// The outcome of an operation.
pub struct OperationResult {
    pub ok: bool,
    pub message: String,
    pub command: String,
    pub output: String,
}

/// What the setup page shows.
pub struct SetupStatus {
    pub conda_available: bool,
    pub conda_path: Option<String>,
    pub recommended_install_path: String,
    pub environment_count: usize,
    pub platform_supported: bool,
    pub conda_version: Option<String>,
    pub base_python_version: Option<String>,
    pub root_prefix: Option<String>,
}

pub open spec fn opt_string_view(o: Option<String>) -> Option<Seq<char>> {
    match o {
        Some(s) => Some(s@),
        None => None,
    }
}

} // verus!
