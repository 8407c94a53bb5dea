//! Upgrading or uninstalling a Python of the machine: the order of the
//! checks and of the work, as machines that ask for one piece of outside
//! work at a time and are told what it gave.
use vstd::prelude::*;
use crate::conda::{push_lit, string_views};
use crate::domain::{opt_string_view, OperationResult};
use crate::process::{failure, failure_of, ProcessOutput};
use crate::system::{
    interpreter_version, interpreter_version_of, major_minor_of, parse_python_major_minor, python_upgrade_result,
    upgrade_refusal, upgrade_refusal_of, winget_failure_fallback, winget_package_id, winget_package_of,
    winget_upgrade_args, PythonOwner,
};
use crate::text::{chars_of, to_string, trim, trim_exec};
use crate::upgrade::{output_view, result_view, OutputView, ResultView};

verus! {

/// Where a system Python upgrade stands.
pub enum SystemUpgradeStage {
    Start,
    /// Whether the interpreter is a file was asked.
    CheckingFile,
    /// Which environment the interpreter belongs to was asked.
    FindingOwner,
    /// The interpreter's version was asked.
    ReadingVersion,
    /// winget was looked for; `current` is the version before.
    FindingWinget { current: String, package_id: String },
    /// winget ran.
    Upgrading { current: String, package_id: String },
    /// The version after was asked; `result` is winget's run.
    Verifying { current: String, package_id: String, result: ProcessOutput },
    Done,
}

/// What a piece of outside work gave.
pub enum SystemEvent {
    Begin,
    IsFile(bool),
    Owner(PythonOwner),
    Ran(ProcessOutput),
    /// Where a program was found, if anywhere.
    Found(Option<String>),
}

/// What is to be done next.
pub enum SystemAction {
    /// Tell whether this path is a file.
    CheckFile(String),
    /// Tell which environment the interpreter at this path belongs to.
    FindOwner(String),
    /// Run this program with these arguments.
    Run(String, Vec<String>),
    /// Find the program with this name.
    FindProgram(String),
    /// Remove the Conda environment with this index of the owner search.
    RemoveConda(usize),
    /// Remove the virtual environment with this index of the owner search.
    RemoveVenv(usize),
    Finish(Result<OperationResult, String>),
    /// What was told does not fit the stage; nothing more is done.
    Stop,
}

pub enum SystemStageView {
    Start,
    CheckingFile,
    FindingOwner,
    ReadingVersion,
    FindingWinget(Seq<char>, Seq<char>),
    Upgrading(Seq<char>, Seq<char>),
    Verifying(Seq<char>, Seq<char>, OutputView),
    Done,
}

pub enum SystemEventView {
    Begin,
    IsFile(bool),
    Owner(PythonOwner),
    Ran(OutputView),
    Found(Option<Seq<char>>),
}

pub enum SystemActionView {
    CheckFile(Seq<char>),
    FindOwner(Seq<char>),
    Run(Seq<char>, Seq<Seq<char>>),
    FindProgram(Seq<char>),
    RemoveConda(usize),
    RemoveVenv(usize),
    Finish(Result<ResultView, Seq<char>>),
    Stop,
}

impl View for SystemUpgradeStage {
    type V = SystemStageView;

    open spec fn view(&self) -> SystemStageView {
        match self {
            SystemUpgradeStage::Start => SystemStageView::Start,
            SystemUpgradeStage::CheckingFile => SystemStageView::CheckingFile,
            SystemUpgradeStage::FindingOwner => SystemStageView::FindingOwner,
            SystemUpgradeStage::ReadingVersion => SystemStageView::ReadingVersion,
            SystemUpgradeStage::FindingWinget { current, package_id } => SystemStageView::FindingWinget(
                current@,
                package_id@,
            ),
            SystemUpgradeStage::Upgrading { current, package_id } => SystemStageView::Upgrading(
                current@,
                package_id@,
            ),
            SystemUpgradeStage::Verifying { current, package_id, result } => SystemStageView::Verifying(
                current@,
                package_id@,
                output_view(*result),
            ),
            SystemUpgradeStage::Done => SystemStageView::Done,
        }
    }
}

impl View for SystemEvent {
    type V = SystemEventView;

    open spec fn view(&self) -> SystemEventView {
        match self {
            SystemEvent::Begin => SystemEventView::Begin,
            SystemEvent::IsFile(b) => SystemEventView::IsFile(*b),
            SystemEvent::Owner(o) => SystemEventView::Owner(*o),
            SystemEvent::Ran(p) => SystemEventView::Ran(output_view(*p)),
            SystemEvent::Found(p) => SystemEventView::Found(opt_string_view(*p)),
        }
    }
}

impl View for SystemAction {
    type V = SystemActionView;

    open spec fn view(&self) -> SystemActionView {
        match self {
            SystemAction::CheckFile(p) => SystemActionView::CheckFile(p@),
            SystemAction::FindOwner(p) => SystemActionView::FindOwner(p@),
            SystemAction::Run(p, a) => SystemActionView::Run(p@, string_views(a@)),
            SystemAction::FindProgram(p) => SystemActionView::FindProgram(p@),
            SystemAction::RemoveConda(i) => SystemActionView::RemoveConda(*i),
            SystemAction::RemoveVenv(i) => SystemActionView::RemoveVenv(*i),
            SystemAction::Finish(Ok(r)) => SystemActionView::Finish(Ok(result_view(*r))),
            SystemAction::Finish(Err(e)) => SystemActionView::Finish(Err(e@)),
            SystemAction::Stop => SystemActionView::Stop,
        }
    }
}

pub open spec fn system_done(e: Seq<char>) -> (SystemStageView, SystemActionView) {
    (SystemStageView::Done, SystemActionView::Finish(Err(e)))
}

/// One step of upgrading the Python at `path` (trimmed) with winget: only on
/// Windows; the interpreter must be a file, belong to no Conda or virtual
/// environment and to no pyenv/asdf folder, print a version whose major and
/// minor are read, and winget must be found; winget's failure, and a version
/// that did not change, are errors.
pub open spec fn system_upgrade_step_of(
    path: Seq<char>,
    windows: bool,
    stage: SystemStageView,
    event: SystemEventView,
) -> (SystemStageView, SystemActionView) {
    let requested = trim(path);
    match (stage, event) {
        (SystemStageView::Start, SystemEventView::Begin) => if !windows {
            system_done("普通系统 Python 的一键升级当前仅支持 Windows；请使用原安装器或系统包管理器升级"@)
        } else {
            (SystemStageView::CheckingFile, SystemActionView::CheckFile(requested))
        },
        (SystemStageView::CheckingFile, SystemEventView::IsFile(b)) => if !b {
            system_done("选中的 Python 路径不存在，无法升级"@)
        } else {
            (SystemStageView::FindingOwner, SystemActionView::FindOwner(requested))
        },
        (SystemStageView::FindingOwner, SystemEventView::Owner(o)) => match upgrade_refusal_of(o, requested) {
            Some(m) => system_done(m),
            None => (SystemStageView::ReadingVersion, SystemActionView::Run(requested, seq!["--version"@])),
        },
        (SystemStageView::ReadingVersion, SystemEventView::Ran(out)) => match interpreter_version_of(
            out.0,
            out.1,
            out.2,
        ) {
            None => system_done("无法读取选中的 Python 版本"@),
            Some(current) => match major_minor_of(current) {
                None => system_done("无法识别选中的 Python 版本"@),
                Some((major, minor)) => (
                    SystemStageView::FindingWinget(current, winget_package_of(major, minor)),
                    SystemActionView::FindProgram("winget"@),
                ),
            },
        },
        (SystemStageView::FindingWinget(c, id), SystemEventView::Found(w)) => match w {
            None => system_done("未检测到 winget，请先安装 Windows App Installer"@),
            Some(winget) => (
                SystemStageView::Upgrading(c, id),
                SystemActionView::Run(
                    winget,
                    seq![
                        "upgrade"@,
                        "--id"@,
                        id,
                        "--exact"@,
                        "--silent"@,
                        "--accept-source-agreements"@,
                        "--accept-package-agreements"@,
                        "--disable-interactivity"@,
                    ],
                ),
            ),
        },
        (SystemStageView::Upgrading(c, id), SystemEventView::Ran(out)) => if !out.0 {
            system_done(failure_of(out.1, out.2, "winget 未能升级 "@ + id))
        } else {
            (SystemStageView::Verifying(c, id, out), SystemActionView::Run(requested, seq!["--version"@]))
        },
        (SystemStageView::Verifying(c, id, result), SystemEventView::Ran(out)) => {
            let actual = match interpreter_version_of(out.0, out.1, out.2) {
                Some(v) => v,
                None => seq![],
            };
            if actual == c {
                system_done("未检测到 Python "@ + c + " 的可用更新（winget 包："@ + id + "）"@)
            } else {
                (
                    SystemStageView::Done,
                    SystemActionView::Finish(Ok((true, "系统 Python 已升级："@ + c + " → "@ + actual, result.3, result.1))),
                )
            }
        },
        _ => (SystemStageView::Done, SystemActionView::Stop),
    }
}

fn system_finish(e: String) -> (r: (SystemUpgradeStage, SystemAction))
    ensures
        (r.0@, r.1@) == system_done(e@),
{
    (SystemUpgradeStage::Done, SystemAction::Finish(Err(e)))
}

fn version_args() -> (r: Vec<String>)
    ensures
        string_views(r@) == seq!["--version"@],
{
    let mut a: Vec<String> = Vec::new();
    assert(string_views(a@) =~= Seq::<Seq<char>>::empty());
    push_lit(&mut a, "--version");
    a
}

/// One step of upgrading the Python at `path` (see `system_upgrade_step_of`).
pub fn system_upgrade_step(path: &str, windows: bool, stage: SystemUpgradeStage, event: SystemEvent) -> (r: (
    SystemUpgradeStage,
    SystemAction,
))
    ensures
        (r.0@, r.1@) == system_upgrade_step_of(path@, windows, stage@, event@),
{
    let requested = to_string(&trim_exec(&chars_of(path)));
    match (stage, event) {
        (SystemUpgradeStage::Start, SystemEvent::Begin) => {
            if !windows {
                system_finish("普通系统 Python 的一键升级当前仅支持 Windows；请使用原安装器或系统包管理器升级".to_owned())
            } else {
                (SystemUpgradeStage::CheckingFile, SystemAction::CheckFile(requested))
            }
        },
        (SystemUpgradeStage::CheckingFile, SystemEvent::IsFile(b)) => {
            if !b {
                system_finish("选中的 Python 路径不存在，无法升级".to_owned())
            } else {
                (SystemUpgradeStage::FindingOwner, SystemAction::FindOwner(requested))
            }
        },
        (SystemUpgradeStage::FindingOwner, SystemEvent::Owner(o)) => {
            match upgrade_refusal(&o, requested.as_str()) {
                Some(m) => system_finish(m),
                None => (SystemUpgradeStage::ReadingVersion, SystemAction::Run(requested, version_args())),
            }
        },
        (SystemUpgradeStage::ReadingVersion, SystemEvent::Ran(out)) => {
            match interpreter_version(&out) {
                None => system_finish("无法读取选中的 Python 版本".to_owned()),
                Some(current) => match parse_python_major_minor(current.as_str()) {
                    None => system_finish("无法识别选中的 Python 版本".to_owned()),
                    Some((major, minor)) => (
                        SystemUpgradeStage::FindingWinget { current, package_id: winget_package_id(major, minor) },
                        SystemAction::FindProgram("winget".to_owned()),
                    ),
                },
            }
        },
        (SystemUpgradeStage::FindingWinget { current, package_id }, SystemEvent::Found(w)) => {
            match w {
                None => system_finish("未检测到 winget，请先安装 Windows App Installer".to_owned()),
                Some(winget) => {
                    let args = winget_upgrade_args(package_id.as_str());
                    (SystemUpgradeStage::Upgrading { current, package_id }, SystemAction::Run(winget, args))
                },
            }
        },
        (SystemUpgradeStage::Upgrading { current, package_id }, SystemEvent::Ran(out)) => {
            if !out.ok {
                system_finish(failure(&out, winget_failure_fallback(package_id.as_str()).as_str()))
            } else {
                (SystemUpgradeStage::Verifying { current, package_id, result: out }, SystemAction::Run(
                    requested,
                    version_args(),
                ))
            }
        },
        (SystemUpgradeStage::Verifying { current, package_id, result }, SystemEvent::Ran(out)) => {
            let actual = match interpreter_version(&out) {
                Some(v) => v,
                None => String::new(),
            };
            match python_upgrade_result(current.as_str(), actual.as_str(), package_id.as_str(), result.command, result.stdout) {
                Ok(r) => (SystemUpgradeStage::Done, SystemAction::Finish(Ok(r))),
                Err(e) => system_finish(e),
            }
        },
        _ => (SystemUpgradeStage::Done, SystemAction::Stop),
    }
}

/// Where a system Python uninstall stands.
pub enum UninstallStage {
    Start,
    CheckingFile,
    FindingOwner,
    Done,
}

pub enum UninstallStageView {
    Start,
    CheckingFile,
    FindingOwner,
    Done,
}

impl View for UninstallStage {
    type V = UninstallStageView;

    open spec fn view(&self) -> UninstallStageView {
        match self {
            UninstallStage::Start => UninstallStageView::Start,
            UninstallStage::CheckingFile => UninstallStageView::CheckingFile,
            UninstallStage::FindingOwner => UninstallStageView::FindingOwner,
            UninstallStage::Done => UninstallStageView::Done,
        }
    }
}

/// One step of uninstalling the Python at `path` (trimmed): it must be a
/// file; the Conda or virtual environment it belongs to is removed, and one
/// that belongs to neither is refused.
pub open spec fn uninstall_step_of(path: Seq<char>, stage: UninstallStageView, event: SystemEventView) -> (
    UninstallStageView,
    SystemActionView,
) {
    match (stage, event) {
        (UninstallStageView::Start, SystemEventView::Begin) => (
            UninstallStageView::CheckingFile,
            SystemActionView::CheckFile(trim(path)),
        ),
        (UninstallStageView::CheckingFile, SystemEventView::IsFile(b)) => if !b {
            (UninstallStageView::Done, SystemActionView::Finish(Err("选中的 Python 路径不存在，无法卸载"@)))
        } else {
            (UninstallStageView::FindingOwner, SystemActionView::FindOwner(trim(path)))
        },
        (UninstallStageView::FindingOwner, SystemEventView::Owner(o)) => match o {
            PythonOwner::Conda(i) => (UninstallStageView::Done, SystemActionView::RemoveConda(i)),
            PythonOwner::Venv(i) => (UninstallStageView::Done, SystemActionView::RemoveVenv(i)),
            PythonOwner::Unmanaged => (
                UninstallStageView::Done,
                SystemActionView::Finish(
                    Err("该 Python 属于系统安装或外部管理器，不能由本程序直接卸载；请从系统应用或原管理器中卸载"@),
                ),
            ),
        },
        _ => (UninstallStageView::Done, SystemActionView::Stop),
    }
}

/// One step of uninstalling the Python at `path` (see `uninstall_step_of`).
pub fn uninstall_step(path: &str, stage: UninstallStage, event: SystemEvent) -> (r: (UninstallStage, SystemAction))
    ensures
        (r.0@, r.1@) == uninstall_step_of(path@, stage@, event@),
{
    match (stage, event) {
        (UninstallStage::Start, SystemEvent::Begin) => (
            UninstallStage::CheckingFile,
            SystemAction::CheckFile(to_string(&trim_exec(&chars_of(path)))),
        ),
        (UninstallStage::CheckingFile, SystemEvent::IsFile(b)) => {
            if !b {
                (UninstallStage::Done, SystemAction::Finish(Err("选中的 Python 路径不存在，无法卸载".to_owned())))
            } else {
                (UninstallStage::FindingOwner, SystemAction::FindOwner(to_string(&trim_exec(&chars_of(path)))))
            }
        },
        (UninstallStage::FindingOwner, SystemEvent::Owner(o)) => match o {
            PythonOwner::Conda(i) => (UninstallStage::Done, SystemAction::RemoveConda(i)),
            PythonOwner::Venv(i) => (UninstallStage::Done, SystemAction::RemoveVenv(i)),
            PythonOwner::Unmanaged => (
                UninstallStage::Done,
                SystemAction::Finish(
                    Err("该 Python 属于系统安装或外部管理器，不能由本程序直接卸载；请从系统应用或原管理器中卸载".to_owned()),
                ),
            ),
        },
        _ => (UninstallStage::Done, SystemAction::Stop),
    }
}

} // verus!
