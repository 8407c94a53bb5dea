//! The requests that the window sends, and the defaults of their fields.
use vstd::prelude::*;
use crate::domain::EnvironmentTarget;

verus! {

/// A new Conda environment, made fresh or cloned from another.
pub struct CondaCreateRequest {
    pub name: String,
    pub mode: String,
    pub source_name: Option<String>,
    pub target_python_version: Option<String>,
    pub clone_python: bool,
    pub clone_packages: bool,
    pub python_version: Option<String>,
    pub channel: Option<String>,
    pub packages: Vec<String>,
}

/// The mode of a create request that names none.
pub fn default_mode() -> (r: String)
    ensures
        r@ == "python"@,
{
    "python".to_owned()
}

/// The clone flags of a create request that names none.
pub fn default_true() -> (r: bool)
    ensures
        r,
{
    true
}

/// The export of an environment to a file.
pub struct CondaExportRequest {
    pub name: String,
    pub path: String,
}

/// The import of an environment file, under the file's name or another.
pub struct CondaImportRequest {
    pub path: String,
    pub name: Option<String>,
}

/// The export of every environment into a folder.
pub struct CondaExportAllRequest {
    pub directory: String,
}

/// A new virtual environment.
pub struct VenvCreateRequest {
    pub name: String,
    pub target_path: String,
    pub python_path: Option<String>,
    pub manager: Option<String>,
}

/// A package operation on an environment.
pub struct PackageActionRequest {
    pub target: EnvironmentTarget,
    pub action: String,
    pub package_name: Option<String>,
    pub index_url: Option<String>,
    pub requirements_path: Option<String>,
}

/// The first-run setup.
pub struct SetupRequest {
    pub install_path: String,
    pub python_version: String,
    pub conda_packages: Vec<String>,
    pub pip_packages: Vec<String>,
}

} // verus!
