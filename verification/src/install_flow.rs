//! Installing uv and creating a virtual environment: the order of the
//! checks and of the work, as machines that ask for one piece of outside
//! work at a time and are told what it gave.
use vstd::prelude::*;
use crate::conda::{push_lit, string_views};
use crate::domain::{opt_string_view, OperationResult};
use crate::package::nonblank;
use crate::path::{is_absolute, join_path};
use crate::process::{failure_of, parent_text, parent_text_exec, ProcessOutput};
use crate::text::{chars_of, concat, is_nonblank, join, to_string};
use crate::upgrade::{output_view, result_view, OutputView, ResultView};
use crate::uv::{
    base_url_of, install_check, install_check_of, install_plan, install_ran, installed_uv, installed_uv_of,
    installer_args_of, installer_program_of, uv_installed_result, validate_version, validated_version_of,
};
use crate::venv::{
    create_command, create_command_of, metadata_text, program_to_find, program_to_find_of, venv_created_result,
    venv_name_check, venv_name_error_of, venv_ran,
};

verus! {

/// What a piece of outside work gave.
pub enum WorkEvent {
    Begin,
    /// A folder that was asked for.
    Folder(String),
    /// Whether the path that was asked about exists.
    Exists(bool),
    /// Where a program was found, if anywhere.
    Found(Option<String>),
    /// What a program that was asked to run gave back.
    Ran(ProcessOutput),
    /// A piece of disk work was done, or why not.
    Finished(Result<(), String>),
}

/// What is to be done next.
pub enum WorkAction {
    /// Tell uv's default install folder.
    FindDefaultFolder,
    /// Make this folder and those above it.
    MakeFolder(String),
    /// Tell whether this path exists.
    CheckExists(String),
    /// Find the program with this name.
    FindProgram(String),
    /// Run this program with these arguments and these environment variables.
    Run(String, Vec<String>, Vec<(String, String)>),
    /// Save this uv in the settings.
    SaveUvPath(String),
    /// Write this text to this file.
    WriteFile(String, String),
    /// Add folder `parent` (if any) to the registry of folders with virtual
    /// environments, as `registry_after_create` writes it.
    Register(Option<String>),
    /// Remove the folder `path` (and the registry's temporary file when
    /// asked), then fail with `error`.
    CleanUp { path: String, temporary: bool, error: String },
    Finish(Result<OperationResult, String>),
    /// What was told does not fit the stage; nothing more is done.
    Stop,
}

pub enum WorkEventView {
    Begin,
    Folder(Seq<char>),
    Exists(bool),
    Found(Option<Seq<char>>),
    Ran(OutputView),
    Finished(Result<(), Seq<char>>),
}

pub enum WorkActionView {
    FindDefaultFolder,
    MakeFolder(Seq<char>),
    CheckExists(Seq<char>),
    FindProgram(Seq<char>),
    Run(Seq<char>, Seq<Seq<char>>, Seq<(Seq<char>, Seq<char>)>),
    SaveUvPath(Seq<char>),
    WriteFile(Seq<char>, Seq<char>),
    Register(Option<Seq<char>>),
    CleanUp(Seq<char>, bool, Seq<char>),
    Finish(Result<ResultView, Seq<char>>),
    Stop,
}

impl View for WorkEvent {
    type V = WorkEventView;

    open spec fn view(&self) -> WorkEventView {
        match self {
            WorkEvent::Begin => WorkEventView::Begin,
            WorkEvent::Folder(f) => WorkEventView::Folder(f@),
            WorkEvent::Exists(b) => WorkEventView::Exists(*b),
            WorkEvent::Found(p) => WorkEventView::Found(opt_string_view(*p)),
            WorkEvent::Ran(o) => WorkEventView::Ran(output_view(*o)),
            WorkEvent::Finished(Ok(())) => WorkEventView::Finished(Ok(())),
            WorkEvent::Finished(Err(e)) => WorkEventView::Finished(Err(e@)),
        }
    }
}

impl View for WorkAction {
    type V = WorkActionView;

    open spec fn view(&self) -> WorkActionView {
        match self {
            WorkAction::FindDefaultFolder => WorkActionView::FindDefaultFolder,
            WorkAction::MakeFolder(p) => WorkActionView::MakeFolder(p@),
            WorkAction::CheckExists(p) => WorkActionView::CheckExists(p@),
            WorkAction::FindProgram(p) => WorkActionView::FindProgram(p@),
            WorkAction::Run(p, a, e) => WorkActionView::Run(
                p@,
                string_views(a@),
                e@.map_values(|x: (String, String)| (x.0@, x.1@)),
            ),
            WorkAction::SaveUvPath(p) => WorkActionView::SaveUvPath(p@),
            WorkAction::WriteFile(p, t) => WorkActionView::WriteFile(p@, t@),
            WorkAction::Register(p) => WorkActionView::Register(opt_string_view(*p)),
            WorkAction::CleanUp { path, temporary, error } => WorkActionView::CleanUp(path@, *temporary, error@),
            WorkAction::Finish(Ok(r)) => WorkActionView::Finish(Ok(result_view(*r))),
            WorkAction::Finish(Err(e)) => WorkActionView::Finish(Err(e@)),
            WorkAction::Stop => WorkActionView::Stop,
        }
    }
}

pub open spec fn fail_with<S>(done: S, e: Seq<char>) -> (S, WorkActionView) {
    (done, WorkActionView::Finish(Err(e)))
}

/// Where an install of uv stands: the version asked for (checked), the
/// install folder, the path of the installed uv and the installer's run.
pub enum UvInstallStage {
    Start,
    FindingDefault,
    Installing { version: Option<String>, directory: String },
    Checking { version: Option<String>, installed: String, result: ProcessOutput },
    Saving { version: Option<String>, installed: String, result: ProcessOutput },
    Done,
}

pub enum UvInstallStageView {
    Start,
    FindingDefault,
    Installing(Option<Seq<char>>, Seq<char>),
    Checking(Option<Seq<char>>, Seq<char>, OutputView),
    Saving(Option<Seq<char>>, Seq<char>, OutputView),
    Done,
}

impl View for UvInstallStage {
    type V = UvInstallStageView;

    open spec fn view(&self) -> UvInstallStageView {
        match self {
            UvInstallStage::Start => UvInstallStageView::Start,
            UvInstallStage::FindingDefault => UvInstallStageView::FindingDefault,
            UvInstallStage::Installing { version, directory } => UvInstallStageView::Installing(
                opt_string_view(*version),
                directory@,
            ),
            UvInstallStage::Checking { version, installed, result } => UvInstallStageView::Checking(
                opt_string_view(*version),
                installed@,
                output_view(*result),
            ),
            UvInstallStage::Saving { version, installed, result } => UvInstallStageView::Saving(
                opt_string_view(*version),
                installed@,
                output_view(*result),
            ),
            UvInstallStage::Done => UvInstallStageView::Done,
        }
    }
}

/// One step of installing uv (`version` and `install_directory` as asked):
/// the version is checked, then the default folder is asked for; the folder
/// (the asked one unless blank) must be absolute; the official installer runs
/// with `UV_INSTALL_DIR` and `UV_NO_MODIFY_PATH=1`; the installed uv must
/// print the asked version; then it is saved in the settings.
pub open spec fn uv_install_step_of(
    version: Option<Seq<char>>,
    install_directory: Option<Seq<char>>,
    windows: bool,
    stage: UvInstallStageView,
    event: WorkEventView,
) -> (UvInstallStageView, WorkActionView) {
    match (stage, event) {
        (UvInstallStageView::Start, WorkEventView::Begin) => match validated_version_of(version) {
            Err(m) => fail_with(UvInstallStageView::Done, m),
            Ok(_) => (UvInstallStageView::FindingDefault, WorkActionView::FindDefaultFolder),
        },
        (UvInstallStageView::FindingDefault, WorkEventView::Folder(default)) => {
            let dir = match nonblank(install_directory) {
                Some(d) => d,
                None => default,
            };
            match validated_version_of(version) {
                Err(m) => fail_with(UvInstallStageView::Done, m),
                Ok(v) => if !is_absolute(dir, windows) {
                    fail_with(UvInstallStageView::Done, "安装目录必须是绝对路径"@)
                } else {
                    (
                        UvInstallStageView::Installing(v, dir),
                        WorkActionView::Run(
                            installer_program_of(windows),
                            installer_args_of(base_url_of(v), windows),
                            seq![("UV_INSTALL_DIR"@, dir), ("UV_NO_MODIFY_PATH"@, "1"@)],
                        ),
                    )
                },
            }
        },
        (UvInstallStageView::Installing(v, dir), WorkEventView::Ran(o)) => if !o.0 {
            fail_with(UvInstallStageView::Done, failure_of(o.1, o.2, "uv 安装失败，请检查网络连接或手动安装 uv"@))
        } else {
            (
                UvInstallStageView::Checking(v, installed_uv_of(dir, windows), o),
                WorkActionView::Run(installed_uv_of(dir, windows), seq!["--version"@], seq![]),
            )
        },
        (UvInstallStageView::Checking(v, installed, result), WorkEventView::Ran(c)) => match install_check_of(
            c.0,
            c.1,
            c.2,
            v,
        ) {
            Err(m) => fail_with(UvInstallStageView::Done, m),
            Ok(_) => (UvInstallStageView::Saving(v, installed, result), WorkActionView::SaveUvPath(installed)),
        },
        (UvInstallStageView::Saving(v, installed, result), WorkEventView::Finished(r)) => match r {
            Err(e) => fail_with(UvInstallStageView::Done, e),
            Ok(_) => (
                UvInstallStageView::Done,
                WorkActionView::Finish(
                    Ok(
                        (
                            true,
                            "uv "@ + (match v {
                                Some(x) => "版本 "@ + x + " 安装"@,
                                None => "安装"@,
                            }) + "完成："@ + installed,
                            result.3,
                            join(seq![result.1, result.2].filter(is_nonblank()), "\n"@),
                        ),
                    ),
                ),
            ),
        },
        _ => (UvInstallStageView::Done, WorkActionView::Stop),
    }
}

fn version_args() -> (r: Vec<String>)
    ensures
        string_views(r@) == seq!["--version"@],
{
    let mut a: Vec<String> = Vec::new();
    assert(string_views(a@) =~= Seq::<Seq<char>>::empty());
    push_lit(&mut a, "--version");
    a
}

fn no_env() -> (r: Vec<(String, String)>)
    ensures
        r@.map_values(|x: (String, String)| (x.0@, x.1@)) == Seq::<(Seq<char>, Seq<char>)>::empty(),
{
    let r: Vec<(String, String)> = Vec::new();
    assert(r@.map_values(|x: (String, String)| (x.0@, x.1@)) =~= Seq::<(Seq<char>, Seq<char>)>::empty());
    r
}

/// One step of installing uv (see `uv_install_step_of`).
pub fn uv_install_step(
    version: &Option<String>,
    install_directory: &Option<String>,
    windows: bool,
    stage: UvInstallStage,
    event: WorkEvent,
) -> (r: (UvInstallStage, WorkAction))
    ensures
        (r.0@, r.1@) == uv_install_step_of(
            opt_string_view(*version),
            opt_string_view(*install_directory),
            windows,
            stage@,
            event@,
        ),
{
    match (stage, event) {
        (UvInstallStage::Start, WorkEvent::Begin) => match validate_version(version.clone()) {
            Err(m) => (UvInstallStage::Done, WorkAction::Finish(Err(m))),
            Ok(_) => (UvInstallStage::FindingDefault, WorkAction::FindDefaultFolder),
        },
        (UvInstallStage::FindingDefault, WorkEvent::Folder(default)) => {
            match install_plan(version.clone(), install_directory.clone(), default, windows) {
                Err(m) => (UvInstallStage::Done, WorkAction::Finish(Err(m))),
                Ok(plan) => (
                    UvInstallStage::Installing { version: plan.version, directory: plan.directory },
                    WorkAction::Run(plan.program, plan.args, plan.env),
                ),
            }
        },
        (UvInstallStage::Installing { version, directory }, WorkEvent::Ran(o)) => match install_ran(&o) {
            Err(m) => (UvInstallStage::Done, WorkAction::Finish(Err(m))),
            Ok(_) => {
                let installed = installed_uv(directory.as_str(), windows);
                let again = installed.clone();
                (
                    UvInstallStage::Checking { version, installed, result: o },
                    WorkAction::Run(again, version_args(), no_env()),
                )
            },
        },
        (UvInstallStage::Checking { version, installed, result }, WorkEvent::Ran(c)) => match install_check(
            &c,
            &version,
        ) {
            Err(m) => (UvInstallStage::Done, WorkAction::Finish(Err(m))),
            Ok(_) => {
                let again = installed.clone();
                (UvInstallStage::Saving { version, installed, result }, WorkAction::SaveUvPath(again))
            },
        },
        (UvInstallStage::Saving { version, installed, result }, WorkEvent::Finished(r)) => match r {
            Err(e) => (UvInstallStage::Done, WorkAction::Finish(Err(e))),
            Ok(_) => (
                UvInstallStage::Done,
                WorkAction::Finish(
                    Ok(uv_installed_result(&version, installed.as_str(), result.command, result.stdout, result.stderr)),
                ),
            ),
        },
        _ => (UvInstallStage::Done, WorkAction::Stop),
    }
}

/// Where the creation of a virtual environment stands; `path` is the new
/// environment's folder and `result` the creating program's run.
pub enum VenvCreateStage {
    Start,
    MakingFolder,
    CheckingExists { path: String },
    FindingProgram { path: String },
    Running { path: String },
    WritingMetadata { path: String, result: ProcessOutput },
    Registering { path: String, result: ProcessOutput },
    Done,
}

pub enum VenvCreateStageView {
    Start,
    MakingFolder,
    CheckingExists(Seq<char>),
    FindingProgram(Seq<char>),
    Running(Seq<char>),
    WritingMetadata(Seq<char>, OutputView),
    Registering(Seq<char>, OutputView),
    Done,
}

impl View for VenvCreateStage {
    type V = VenvCreateStageView;

    open spec fn view(&self) -> VenvCreateStageView {
        match self {
            VenvCreateStage::Start => VenvCreateStageView::Start,
            VenvCreateStage::MakingFolder => VenvCreateStageView::MakingFolder,
            VenvCreateStage::CheckingExists { path } => VenvCreateStageView::CheckingExists(path@),
            VenvCreateStage::FindingProgram { path } => VenvCreateStageView::FindingProgram(path@),
            VenvCreateStage::Running { path } => VenvCreateStageView::Running(path@),
            VenvCreateStage::WritingMetadata { path, result } => VenvCreateStageView::WritingMetadata(
                path@,
                output_view(*result),
            ),
            VenvCreateStage::Registering { path, result } => VenvCreateStageView::Registering(
                path@,
                output_view(*result),
            ),
            VenvCreateStage::Done => VenvCreateStageView::Done,
        }
    }
}

/// What a venv request asks for.
pub struct VenvRequest {
    pub name: String,
    pub target_path: String,
    pub python_path: Option<String>,
    /// `uv` creates with uv; anything else with Python's `venv` module.
    pub manager: Option<String>,
}

pub struct VenvRequestView {
    pub name: Seq<char>,
    pub target_path: Seq<char>,
    pub python_path: Option<Seq<char>>,
    pub use_uv: bool,
}

impl View for VenvRequest {
    type V = VenvRequestView;

    open spec fn view(&self) -> VenvRequestView {
        VenvRequestView {
            name: self.name@,
            target_path: self.target_path@,
            python_path: opt_string_view(self.python_path),
            use_uv: crate::package::uses_uv(opt_string_view(self.manager)),
        }
    }
}

/// The run that creates the environment, once the program is known.
pub open spec fn venv_command_step(q: VenvRequestView, path: Seq<char>, found: Option<Seq<char>>) -> (
    VenvCreateStageView,
    WorkActionView,
) {
    match create_command_of(q.use_uv, path, q.python_path, found) {
        Err(e) => fail_with(VenvCreateStageView::Done, e),
        Ok((program, args)) => (VenvCreateStageView::Running(path), WorkActionView::Run(program, args, seq![])),
    }
}

/// One step of creating a virtual environment: the name is checked, the
/// target folder made, and the environment's folder must not exist yet; uv
/// (or Python, unless its path was given) is looked for and creates it; then
/// the environment's metadata file is written and its parent folder
/// registered. A failure after the environment exists removes it again.
pub open spec fn venv_create_step_of(
    q: VenvRequestView,
    windows: bool,
    stage: VenvCreateStageView,
    event: WorkEventView,
) -> (VenvCreateStageView, WorkActionView) {
    let path = join_path(q.target_path, q.name, windows);
    match (stage, event) {
        (VenvCreateStageView::Start, WorkEventView::Begin) => match venv_name_error_of(q.name, q.target_path) {
            Some(e) => fail_with(VenvCreateStageView::Done, e),
            None => (VenvCreateStageView::MakingFolder, WorkActionView::MakeFolder(q.target_path)),
        },
        (VenvCreateStageView::MakingFolder, WorkEventView::Finished(r)) => match r {
            Err(e) => fail_with(VenvCreateStageView::Done, "创建目标目录失败: "@ + e),
            Ok(_) => (VenvCreateStageView::CheckingExists(path), WorkActionView::CheckExists(path)),
        },
        (VenvCreateStageView::CheckingExists(p), WorkEventView::Exists(b)) => if b {
            fail_with(VenvCreateStageView::Done, "目标目录已存在，请选择新的环境名称"@)
        } else {
            match program_to_find_of(q.use_uv, q.python_path, windows) {
                Some(program) => (VenvCreateStageView::FindingProgram(p), WorkActionView::FindProgram(program)),
                None => venv_command_step(q, p, None),
            }
        },
        (VenvCreateStageView::FindingProgram(p), WorkEventView::Found(f)) => venv_command_step(q, p, f),
        (VenvCreateStageView::Running(p), WorkEventView::Ran(o)) => if !o.0 {
            fail_with(VenvCreateStageView::Done, failure_of(o.1, o.2, "创建虚拟环境失败"@))
        } else {
            (
                VenvCreateStageView::WritingMetadata(p, o),
                WorkActionView::WriteFile(
                    join_path(p, ".weipython-env.json"@, windows),
                    if q.use_uv {
                        "{\"manager\":\"uv\"}"@
                    } else {
                        "{\"manager\":\"venv\"}"@
                    },
                ),
            )
        },
        (VenvCreateStageView::WritingMetadata(p, o), WorkEventView::Finished(r)) => match r {
            Err(e) => (
                VenvCreateStageView::Done,
                WorkActionView::CleanUp(p, false, "写入环境元数据失败，已清理创建的环境: "@ + e),
            ),
            Ok(_) => (VenvCreateStageView::Registering(p, o), WorkActionView::Register(parent_text(p, windows))),
        },
        (VenvCreateStageView::Registering(p, o), WorkEventView::Finished(r)) => match r {
            Err(e) => (
                VenvCreateStageView::Done,
                WorkActionView::CleanUp(p, true, "登记环境失败，已清理创建的环境: "@ + e),
            ),
            Ok(_) => (
                VenvCreateStageView::Done,
                WorkActionView::Finish(Ok((true, "虚拟环境 "@ + q.name + " 创建完成"@, o.3, o.1))),
            ),
        },
        _ => (VenvCreateStageView::Done, WorkActionView::Stop),
    }
}

fn venv_command_exec(q: &VenvRequest, path: String, found: Option<String>) -> (r: (VenvCreateStage, WorkAction))
    ensures
        (r.0@, r.1@) == venv_command_step(q@, path@, opt_string_view(found)),
{
    let use_uv = crate::package::is_uv_manager(&q.manager);
    match create_command(use_uv, path.as_str(), q.python_path.clone(), found) {
        Err(e) => (VenvCreateStage::Done, WorkAction::Finish(Err(e))),
        Ok((program, args)) => (VenvCreateStage::Running { path }, WorkAction::Run(program, args, no_env())),
    }
}

fn prefixed(prefix: &str, e: String) -> (r: String)
    ensures
        r@ == prefix@ + e@,
{
    to_string(&concat(&chars_of(prefix), &chars_of(e.as_str())))
}

/// One step of creating a virtual environment (see `venv_create_step_of`).
pub fn venv_create_step(q: &VenvRequest, windows: bool, stage: VenvCreateStage, event: WorkEvent) -> (r: (
    VenvCreateStage,
    WorkAction,
))
    ensures
        (r.0@, r.1@) == venv_create_step_of(q@, windows, stage@, event@),
{
    let use_uv = crate::package::is_uv_manager(&q.manager);
    match (stage, event) {
        (VenvCreateStage::Start, WorkEvent::Begin) => match venv_name_check(q.name.as_str(), q.target_path.as_str()) {
            Err(e) => (VenvCreateStage::Done, WorkAction::Finish(Err(e))),
            Ok(_) => (VenvCreateStage::MakingFolder, WorkAction::MakeFolder(q.target_path.clone())),
        },
        (VenvCreateStage::MakingFolder, WorkEvent::Finished(r)) => match r {
            Err(e) => (VenvCreateStage::Done, WorkAction::Finish(Err(prefixed("创建目标目录失败: ", e)))),
            Ok(_) => {
                let path = crate::path::join(q.target_path.as_str(), q.name.as_str(), windows);
                let again = path.clone();
                (VenvCreateStage::CheckingExists { path }, WorkAction::CheckExists(again))
            },
        },
        (VenvCreateStage::CheckingExists { path }, WorkEvent::Exists(b)) => {
            if b {
                (VenvCreateStage::Done, WorkAction::Finish(Err("目标目录已存在，请选择新的环境名称".to_owned())))
            } else {
                match program_to_find(use_uv, &q.python_path, windows) {
                    Some(program) => (VenvCreateStage::FindingProgram { path }, WorkAction::FindProgram(program)),
                    None => venv_command_exec(q, path, None),
                }
            }
        },
        (VenvCreateStage::FindingProgram { path }, WorkEvent::Found(f)) => venv_command_exec(q, path, f),
        (VenvCreateStage::Running { path }, WorkEvent::Ran(o)) => match venv_ran(&o) {
            Err(m) => (VenvCreateStage::Done, WorkAction::Finish(Err(m))),
            Ok(_) => {
                let file = crate::path::join(path.as_str(), ".weipython-env.json", windows);
                (VenvCreateStage::WritingMetadata { path, result: o }, WorkAction::WriteFile(file, metadata_text(use_uv)))
            },
        },
        (VenvCreateStage::WritingMetadata { path, result }, WorkEvent::Finished(r)) => match r {
            Err(e) => (
                VenvCreateStage::Done,
                WorkAction::CleanUp {
                    path,
                    temporary: false,
                    error: prefixed("写入环境元数据失败，已清理创建的环境: ", e),
                },
            ),
            Ok(_) => {
                let parent = match parent_text_exec(&chars_of(path.as_str()), windows) {
                    Some(p) => Some(to_string(&p)),
                    None => None,
                };
                (VenvCreateStage::Registering { path, result }, WorkAction::Register(parent))
            },
        },
        (VenvCreateStage::Registering { path, result }, WorkEvent::Finished(r)) => match r {
            Err(e) => (
                VenvCreateStage::Done,
                WorkAction::CleanUp { path, temporary: true, error: prefixed("登记环境失败，已清理创建的环境: ", e) },
            ),
            Ok(_) => (
                VenvCreateStage::Done,
                WorkAction::Finish(Ok(venv_created_result(q.name.as_str(), result.command, result.stdout))),
            ),
        },
        _ => (VenvCreateStage::Done, WorkAction::Stop),
    }
}

} // verus!
