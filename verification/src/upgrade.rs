//! Upgrading the Python of a Conda environment, or Conda itself, with a
//! safety net: a dry run first, then a backup of the environment, then the
//! upgrade, then a check of what it gave. A machine that asks for one piece
//! of outside work at a time and is told what it gave.
use vstd::prelude::*;
use crate::conda::{
    completed, conda_python_of, conda_python_version, conda_python_version_of, conda_upgrade_backup_file,
    conda_upgraded_result, default_export_directory, export_directory_of, python_executable,
    python_upgrade_backup_file, push_lit, safe_file_name_of, string_views, upgrade_conda_args,
    upgrade_mismatch_message, upgrade_python_args, upgrade_python_args_of, version_matches,
    version_matches_of,
};
use crate::domain::OperationResult;
use crate::path::join_path;
use crate::process::{failure, failure_of, ProcessOutput};
use crate::text::{chars_of, decimal, eq, is_nonempty, join, trim};

verus! {

/// What is upgraded.
pub enum UpgradeTarget {
    /// The Python of Conda environment `name`, to `version`, from `channel`.
    EnvironmentPython { name: String, version: String, channel: String },
    /// Conda's own packages in the base environment.
    Conda,
}

/// Where the upgrade stands. `prefix` is the environment's folder (Python
/// upgrades), `before` what `conda --version` printed first (Conda upgrades),
/// `backup` the file the environment was exported to.
pub enum UpgradeStage {
    Start,
    /// The Conda environments were asked for.
    Finding,
    /// `conda --version` was run before the upgrade.
    ReadingBefore,
    /// The dry run was run.
    Checking { prefix: String, before: String },
    /// The export folder is being made.
    MakingDirectory { prefix: String, before: String },
    /// The time was asked for, to name the backup.
    ReadingClock { prefix: String, before: String },
    /// The backup is being exported.
    Exporting { prefix: String, before: String, backup: String },
    /// The upgrade was run.
    Upgrading { prefix: String, before: String, backup: String },
    /// The version after the upgrade was asked for; `result` is the upgrade's run.
    Verifying { before: String, backup: String, result: ProcessOutput },
    /// The upgrade is over.
    Done,
}

/// What a piece of outside work gave.
pub enum UpgradeEvent {
    Begin,
    /// The Conda environments, each as its name and folder, or why they
    /// could not be listed.
    Environments(Result<Vec<(String, String)>, String>),
    /// What a program that was asked to run gave back, or why it could not be run.
    Ran(Result<ProcessOutput, String>),
    /// A folder was made or an export written, or why not.
    Finished(Result<(), String>),
    /// The time in milliseconds since 1970, or why it could not be read.
    Clock(Result<u128, String>),
}

/// What is to be done next.
pub enum UpgradeAction {
    ListEnvironments,
    /// Run Conda with these arguments.
    RunConda(Vec<String>),
    /// Run this program with these arguments.
    Run(String, Vec<String>),
    /// Make this folder and those above it.
    MakeDirectory(String),
    ReadClock,
    /// Export environment `name` to file `path`.
    Export(String, String),
    /// The upgrade is over with this outcome.
    Finish(Result<OperationResult, String>),
    /// What was told does not fit the stage; nothing more is done.
    Stop,
}

pub type OutputView = (bool, Seq<char>, Seq<char>, Seq<char>);

pub type ResultView = (bool, Seq<char>, Seq<char>, Seq<char>);

pub enum TargetView {
    EnvironmentPython(Seq<char>, Seq<char>, Seq<char>),
    Conda,
}

pub enum UpgradeStageView {
    Start,
    Finding,
    ReadingBefore,
    Checking(Seq<char>, Seq<char>),
    MakingDirectory(Seq<char>, Seq<char>),
    ReadingClock(Seq<char>, Seq<char>),
    Exporting(Seq<char>, Seq<char>, Seq<char>),
    Upgrading(Seq<char>, Seq<char>, Seq<char>),
    Verifying(Seq<char>, Seq<char>, OutputView),
    Done,
}

pub enum UpgradeEventView {
    Begin,
    Environments(Result<Seq<(Seq<char>, Seq<char>)>, Seq<char>>),
    Ran(Result<OutputView, Seq<char>>),
    Finished(Result<(), Seq<char>>),
    Clock(Result<u128, Seq<char>>),
}

pub enum UpgradeActionView {
    ListEnvironments,
    RunConda(Seq<Seq<char>>),
    Run(Seq<char>, Seq<Seq<char>>),
    MakeDirectory(Seq<char>),
    ReadClock,
    Export(Seq<char>, Seq<char>),
    Finish(Result<ResultView, Seq<char>>),
    Stop,
}

pub open spec fn output_view(p: ProcessOutput) -> OutputView {
    (p.ok, p.stdout@, p.stderr@, p.command@)
}

pub open spec fn result_view(r: OperationResult) -> ResultView {
    (r.ok, r.message@, r.command@, r.output@)
}

impl View for UpgradeTarget {
    type V = TargetView;

    open spec fn view(&self) -> TargetView {
        match self {
            UpgradeTarget::EnvironmentPython { name, version, channel } => TargetView::EnvironmentPython(
                name@,
                version@,
                channel@,
            ),
            UpgradeTarget::Conda => TargetView::Conda,
        }
    }
}

impl View for UpgradeStage {
    type V = UpgradeStageView;

    open spec fn view(&self) -> UpgradeStageView {
        match self {
            UpgradeStage::Start => UpgradeStageView::Start,
            UpgradeStage::Finding => UpgradeStageView::Finding,
            UpgradeStage::ReadingBefore => UpgradeStageView::ReadingBefore,
            UpgradeStage::Checking { prefix, before } => UpgradeStageView::Checking(prefix@, before@),
            UpgradeStage::MakingDirectory { prefix, before } => UpgradeStageView::MakingDirectory(prefix@, before@),
            UpgradeStage::ReadingClock { prefix, before } => UpgradeStageView::ReadingClock(prefix@, before@),
            UpgradeStage::Exporting { prefix, before, backup } => UpgradeStageView::Exporting(
                prefix@,
                before@,
                backup@,
            ),
            UpgradeStage::Upgrading { prefix, before, backup } => UpgradeStageView::Upgrading(
                prefix@,
                before@,
                backup@,
            ),
            UpgradeStage::Verifying { before, backup, result } => UpgradeStageView::Verifying(
                before@,
                backup@,
                output_view(*result),
            ),
            UpgradeStage::Done => UpgradeStageView::Done,
        }
    }
}

impl View for UpgradeEvent {
    type V = UpgradeEventView;

    open spec fn view(&self) -> UpgradeEventView {
        match self {
            UpgradeEvent::Begin => UpgradeEventView::Begin,
            UpgradeEvent::Environments(Ok(v)) => UpgradeEventView::Environments(
                Ok(v@.map_values(|e: (String, String)| (e.0@, e.1@))),
            ),
            UpgradeEvent::Environments(Err(e)) => UpgradeEventView::Environments(Err(e@)),
            UpgradeEvent::Ran(Ok(p)) => UpgradeEventView::Ran(Ok(output_view(*p))),
            UpgradeEvent::Ran(Err(e)) => UpgradeEventView::Ran(Err(e@)),
            UpgradeEvent::Finished(Ok(())) => UpgradeEventView::Finished(Ok(())),
            UpgradeEvent::Finished(Err(e)) => UpgradeEventView::Finished(Err(e@)),
            UpgradeEvent::Clock(Ok(t)) => UpgradeEventView::Clock(Ok(*t)),
            UpgradeEvent::Clock(Err(e)) => UpgradeEventView::Clock(Err(e@)),
        }
    }
}

impl View for UpgradeAction {
    type V = UpgradeActionView;

    open spec fn view(&self) -> UpgradeActionView {
        match self {
            UpgradeAction::ListEnvironments => UpgradeActionView::ListEnvironments,
            UpgradeAction::RunConda(a) => UpgradeActionView::RunConda(string_views(a@)),
            UpgradeAction::Run(p, a) => UpgradeActionView::Run(p@, string_views(a@)),
            UpgradeAction::MakeDirectory(p) => UpgradeActionView::MakeDirectory(p@),
            UpgradeAction::ReadClock => UpgradeActionView::ReadClock,
            UpgradeAction::Export(n, p) => UpgradeActionView::Export(n@, p@),
            UpgradeAction::Finish(Ok(r)) => UpgradeActionView::Finish(Ok(result_view(*r))),
            UpgradeAction::Finish(Err(e)) => UpgradeActionView::Finish(Err(e@)),
            UpgradeAction::Stop => UpgradeActionView::Stop,
        }
    }
}

/// The arguments of the upgrade.
pub open spec fn upgrade_args_of(t: TargetView) -> Seq<Seq<char>> {
    match t {
        TargetView::EnvironmentPython(n, v, c) => upgrade_python_args_of(n, v, c),
        TargetView::Conda => seq!["install"@, "-n"@, "base"@, "-c"@, "defaults"@, "conda"@, "-y"@],
    }
}

/// The environment that is exported as the backup.
pub open spec fn backup_environment(t: TargetView) -> Seq<char> {
    match t {
        TargetView::EnvironmentPython(n, _, _) => n,
        TargetView::Conda => "base"@,
    }
}

/// The backup file, named by the time.
pub open spec fn backup_file_of(t: TargetView, home: Seq<char>, now: u128, windows: bool) -> Seq<char> {
    match t {
        TargetView::EnvironmentPython(n, _, _) => join_path(
            export_directory_of(home, windows),
            safe_file_name_of(n) + "-before-upgrade-"@ + decimal(now as nat) + ".yml"@,
            windows,
        ),
        TargetView::Conda => join_path(
            export_directory_of(home, windows),
            "base-before-conda-upgrade-"@ + decimal(now as nat) + ".yml"@,
            windows,
        ),
    }
}

/// The folder of the first environment named `name`.
pub open spec fn folder_of(envs: Seq<(Seq<char>, Seq<char>)>, name: Seq<char>) -> Option<Seq<char>>
    decreases envs.len(),
{
    if envs.len() == 0 {
        None
    } else if envs[0].0 == name {
        Some(envs[0].1)
    } else {
        folder_of(envs.drop_first(), name)
    }
}

pub open spec fn finish_err(e: Seq<char>) -> (UpgradeStageView, UpgradeActionView) {
    (UpgradeStageView::Done, UpgradeActionView::Finish(Err(e)))
}

/// One step of an upgrade: from where it stands and what the last piece of
/// outside work gave, where it stands next and what is to be done. The order:
/// for a Python upgrade the environment is looked up by name (a blank name or
/// version is refused first), for a Conda upgrade its version is read; then
/// the dry run, the export folder, the time, the backup export, the upgrade,
/// and the check: the environment's Python must have the asked version, and
/// a Conda upgrade reports its versions before and after. Each failure ends
/// the upgrade with its message; what does not fit the stage stops it.
pub open spec fn upgrade_step_of(
    t: TargetView,
    home: Seq<char>,
    windows: bool,
    stage: UpgradeStageView,
    event: UpgradeEventView,
) -> (UpgradeStageView, UpgradeActionView) {
    let dry = upgrade_args_of(t).push("--dry-run"@);
    if blank_request_of(t) {
        if stage is Start && event is Begin {
            finish_err("环境名称和目标 Python 版本不能为空"@)
        } else {
            (UpgradeStageView::Done, UpgradeActionView::Stop)
        }
    } else {
        match (stage, event) {
            (UpgradeStageView::Start, UpgradeEventView::Begin) => match t {
                TargetView::EnvironmentPython(n, v, _) => (UpgradeStageView::Finding, UpgradeActionView::ListEnvironments),
                TargetView::Conda => (UpgradeStageView::ReadingBefore, UpgradeActionView::RunConda(seq!["--version"@])),
            },
            (UpgradeStageView::Finding, UpgradeEventView::Environments(Err(e))) => finish_err(e),
            (UpgradeStageView::Finding, UpgradeEventView::Environments(Ok(envs))) => match folder_of(
                envs,
                backup_environment(t),
            ) {
                Some(prefix) => (UpgradeStageView::Checking(prefix, seq![]), UpgradeActionView::RunConda(dry)),
                None => finish_err("未找到目标环境"@),
            },
            (UpgradeStageView::ReadingBefore, UpgradeEventView::Ran(Err(e))) => finish_err(e),
            (UpgradeStageView::ReadingBefore, UpgradeEventView::Ran(Ok(o))) => if !o.0 {
                finish_err(failure_of(o.1, o.2, "读取 Conda 版本失败"@))
            } else {
                (UpgradeStageView::Checking(seq![], o.1), UpgradeActionView::RunConda(dry))
            },
            (UpgradeStageView::Checking(p, b), UpgradeEventView::Ran(Err(e))) => finish_err(e),
            (UpgradeStageView::Checking(p, b), UpgradeEventView::Ran(Ok(o))) => if !o.0 {
                finish_err(
                    failure_of(
                        o.1,
                        o.2,
                        if t is Conda {
                            "Conda 升级依赖检查失败"@
                        } else {
                            "升级依赖检查失败"@
                        },
                    ),
                )
            } else {
                (
                    UpgradeStageView::MakingDirectory(p, b),
                    UpgradeActionView::MakeDirectory(export_directory_of(home, windows)),
                )
            },
            (UpgradeStageView::MakingDirectory(p, b), UpgradeEventView::Finished(r)) => match r {
                Err(e) => finish_err(e),
                Ok(_) => (UpgradeStageView::ReadingClock(p, b), UpgradeActionView::ReadClock),
            },
            (UpgradeStageView::ReadingClock(p, b), UpgradeEventView::Clock(r)) => match r {
                Err(e) => finish_err(e),
                Ok(now) => {
                    let backup = backup_file_of(t, home, now, windows);
                    (
                        UpgradeStageView::Exporting(p, b, backup),
                        UpgradeActionView::Export(backup_environment(t), backup),
                    )
                },
            },
            (UpgradeStageView::Exporting(p, b, k), UpgradeEventView::Finished(r)) => match r {
                Err(e) => finish_err(e),
                Ok(_) => (UpgradeStageView::Upgrading(p, b, k), UpgradeActionView::RunConda(upgrade_args_of(t))),
            },
            (UpgradeStageView::Upgrading(p, b, k), UpgradeEventView::Ran(Err(e))) => finish_err(e),
            (UpgradeStageView::Upgrading(p, b, k), UpgradeEventView::Ran(Ok(o))) => if !o.0 {
                finish_err(
                    failure_of(
                        o.1,
                        o.2,
                        if t is Conda {
                            "升级 Conda 失败"@
                        } else {
                            "升级 Conda 环境 Python 失败"@
                        },
                    ),
                )
            } else if t is Conda {
                (UpgradeStageView::Verifying(b, k, o), UpgradeActionView::RunConda(seq!["--version"@]))
            } else {
                (
                    UpgradeStageView::Verifying(b, k, o),
                    UpgradeActionView::Run(conda_python_of(p, windows), seq!["--version"@]),
                )
            },
            (UpgradeStageView::Verifying(b, k, o), UpgradeEventView::Ran(Err(e))) => finish_err(e),
            (UpgradeStageView::Verifying(b, k, o), UpgradeEventView::Ran(Ok(after))) => match t {
                TargetView::EnvironmentPython(_, v, _) => {
                    let actual = conda_python_version_of(after.1, after.2);
                    if version_matches_of(actual, v) {
                        (
                            UpgradeStageView::Done,
                            UpgradeActionView::Finish(Ok((true, "Conda 环境 Python 升级完成"@, o.3, o.1))),
                        )
                    } else {
                        finish_err("升级后校验失败：期望 "@ + v + "，实际 "@ + actual + "；备份位于 "@ + k)
                    }
                },
                TargetView::Conda => (
                    UpgradeStageView::Done,
                    UpgradeActionView::Finish(
                        Ok(
                            (
                                true,
                                "Conda 核心包升级完成"@,
                                o.3,
                                join(
                                    seq![o.1, o.2, "升级前："@ + b, "升级后："@ + after.1, "备份："@ + k].filter(
                                        is_nonempty(),
                                    ),
                                    "\n"@,
                                ),
                            ),
                        ),
                    ),
                ),
            },
            _ => (UpgradeStageView::Done, UpgradeActionView::Stop),
        }
    }
}

fn upgrade_args(t: &UpgradeTarget) -> (r: Vec<String>)
    requires
        !blank_request_of(t@),
    ensures
        string_views(r@) == upgrade_args_of(t@),
{
    match t {
        UpgradeTarget::EnvironmentPython { name, version, channel } => {
            match upgrade_python_args(name.as_str(), version.as_str(), channel.as_str()) {
                Ok((args, _)) => args,
                Err(_) => Vec::new(),
            }
        },
        UpgradeTarget::Conda => upgrade_conda_args().0,
    }
}

fn dry_args(t: &UpgradeTarget) -> (r: Vec<String>)
    requires
        !blank_request_of(t@),
    ensures
        string_views(r@) == upgrade_args_of(t@).push("--dry-run"@),
{
    let mut a = upgrade_args(t);
    let ghost before = string_views(a@);
    push_lit(&mut a, "--dry-run");
    a
}

fn version_args() -> (r: Vec<String>)
    ensures
        string_views(r@) == seq!["--version"@],
{
    let mut a: Vec<String> = Vec::new();
    assert(string_views(a@) =~= Seq::<Seq<char>>::empty());
    push_lit(&mut a, "--version");
    a
}

fn backup_name(t: &UpgradeTarget) -> (r: String)
    ensures
        r@ == backup_environment(t@),
{
    match t {
        UpgradeTarget::EnvironmentPython { name, .. } => name.clone(),
        UpgradeTarget::Conda => "base".to_owned(),
    }
}

fn folder_of_exec(envs: &Vec<(String, String)>, name: &String) -> (r: Option<String>)
    ensures
        crate::domain::opt_string_view(r) == folder_of(envs@.map_values(|e: (String, String)| (e.0@, e.1@)), name@),
{
    let ghost ev = envs@.map_values(|e: (String, String)| (e.0@, e.1@));
    let mut i: usize = 0;
    assert(ev.subrange(0, ev.len() as int) =~= ev);
    while i < envs.len()
        invariant
            i <= envs.len(),
            ev == envs@.map_values(|e: (String, String)| (e.0@, e.1@)),
            folder_of(ev, name@) == folder_of(ev.subrange(i as int, ev.len() as int), name@),
        decreases envs.len() - i,
    {
        let ghost rest = ev.subrange(i as int, ev.len() as int);
        assert(rest.drop_first() =~= ev.subrange(i + 1, ev.len() as int));
        assert(rest[0] == ev[i as int]);
        if eq(&chars_of(envs[i].0.as_str()), &chars_of(name.as_str())) {
            return Some(envs[i].1.clone());
        }
        i = i + 1;
    }
    None
}

fn finish_with(e: String) -> (r: (UpgradeStage, UpgradeAction))
    ensures
        (r.0@, r.1@) == finish_err(e@),
{
    (UpgradeStage::Done, UpgradeAction::Finish(Err(e)))
}

fn blank_request(t: &UpgradeTarget) -> (r: bool)
    ensures
        r == blank_request_of(t@),
{
    match t {
        UpgradeTarget::EnvironmentPython { name, version, channel } => upgrade_python_args(
            name.as_str(),
            version.as_str(),
            channel.as_str(),
        ).is_err(),
        UpgradeTarget::Conda => false,
    }
}

fn step_ran(
    t: &UpgradeTarget,
    home: &str,
    windows: bool,
    stage: UpgradeStage,
    o: ProcessOutput,
) -> (r: (UpgradeStage, UpgradeAction))
    requires
        !blank_request_of(t@),
    ensures
        (r.0@, r.1@) == upgrade_step_of(t@, home@, windows, stage@, UpgradeEventView::Ran(Ok(output_view(o)))),
{
    let conda = match t {
        UpgradeTarget::Conda => true,
        _ => false,
    };
    match stage {
        UpgradeStage::ReadingBefore => {
            if !o.ok {
                finish_with(failure(&o, "读取 Conda 版本失败"))
            } else {
                (UpgradeStage::Checking { prefix: String::new(), before: o.stdout }, UpgradeAction::RunConda(
                    dry_args(t),
                ))
            }
        },
        UpgradeStage::Checking { prefix, before } => {
            if !o.ok {
                finish_with(
                    failure(
                        &o,
                        if conda {
                            "Conda 升级依赖检查失败"
                        } else {
                            "升级依赖检查失败"
                        },
                    ),
                )
            } else {
                (
                    UpgradeStage::MakingDirectory { prefix, before },
                    UpgradeAction::MakeDirectory(default_export_directory(home, windows)),
                )
            }
        },
        UpgradeStage::Upgrading { prefix, before, backup } => {
            if !o.ok {
                finish_with(
                    failure(
                        &o,
                        if conda {
                            "升级 Conda 失败"
                        } else {
                            "升级 Conda 环境 Python 失败"
                        },
                    ),
                )
            } else if conda {
                (UpgradeStage::Verifying { before, backup, result: o }, UpgradeAction::RunConda(version_args()))
            } else {
                let exe = python_executable(prefix.as_str(), windows);
                (UpgradeStage::Verifying { before, backup, result: o }, UpgradeAction::Run(exe, version_args()))
            }
        },
        UpgradeStage::Verifying { before, backup, result } => {
            match t {
                UpgradeTarget::EnvironmentPython { version, .. } => {
                    let actual = conda_python_version(o.stdout.as_str(), o.stderr.as_str());
                    if version_matches(actual.as_str(), version.as_str()) {
                        (
                            UpgradeStage::Done,
                            UpgradeAction::Finish(
                                Ok(completed("Conda 环境 Python 升级完成", result.command, result.stdout)),
                            ),
                        )
                    } else {
                        finish_with(upgrade_mismatch_message(version.as_str(), actual.as_str(), backup.as_str()))
                    }
                },
                UpgradeTarget::Conda => (
                    UpgradeStage::Done,
                    UpgradeAction::Finish(
                        Ok(
                            conda_upgraded_result(
                                result.command,
                                result.stdout,
                                result.stderr,
                                before.as_str(),
                                o.stdout.as_str(),
                                backup.as_str(),
                            ),
                        ),
                    ),
                ),
            }
        },
        _ => (UpgradeStage::Done, UpgradeAction::Stop),
    }
}

pub open spec fn blank_request_of(t: TargetView) -> bool {
    t matches TargetView::EnvironmentPython(n, v, _) && (trim(n).len() == 0 || trim(v).len() == 0)
}

/// One step of an upgrade (see `upgrade_step_of`).
pub fn upgrade_step(
    t: &UpgradeTarget,
    home: &str,
    windows: bool,
    stage: UpgradeStage,
    event: UpgradeEvent,
) -> (r: (UpgradeStage, UpgradeAction))
    ensures
        (r.0@, r.1@) == upgrade_step_of(t@, home@, windows, stage@, event@),
{
    if blank_request(t) {
        return match (stage, event) {
            (UpgradeStage::Start, UpgradeEvent::Begin) => finish_with(
                "环境名称和目标 Python 版本不能为空".to_owned(),
            ),
            _ => (UpgradeStage::Done, UpgradeAction::Stop),
        };
    }
    match (stage, event) {
        (UpgradeStage::Start, UpgradeEvent::Begin) => match t {
            UpgradeTarget::EnvironmentPython { .. } => (UpgradeStage::Finding, UpgradeAction::ListEnvironments),
            UpgradeTarget::Conda => (UpgradeStage::ReadingBefore, UpgradeAction::RunConda(version_args())),
        },
        (UpgradeStage::Finding, UpgradeEvent::Environments(Err(e))) => finish_with(e),
        (UpgradeStage::Finding, UpgradeEvent::Environments(Ok(envs))) => {
            match folder_of_exec(&envs, &backup_name(t)) {
                Some(prefix) => (
                    UpgradeStage::Checking { prefix, before: String::new() },
                    UpgradeAction::RunConda(dry_args(t)),
                ),
                None => finish_with("未找到目标环境".to_owned()),
            }
        },
        (UpgradeStage::ReadingBefore, UpgradeEvent::Ran(Err(e))) => finish_with(e),
        (UpgradeStage::Checking { .. }, UpgradeEvent::Ran(Err(e))) => finish_with(e),
        (UpgradeStage::Upgrading { .. }, UpgradeEvent::Ran(Err(e))) => finish_with(e),
        (UpgradeStage::Verifying { .. }, UpgradeEvent::Ran(Err(e))) => finish_with(e),
        (UpgradeStage::ReadingBefore, UpgradeEvent::Ran(Ok(o))) => step_ran(t, home, windows, UpgradeStage::ReadingBefore, o),
        (UpgradeStage::Checking { prefix, before }, UpgradeEvent::Ran(Ok(o))) => step_ran(
            t,
            home,
            windows,
            UpgradeStage::Checking { prefix, before },
            o,
        ),
        (UpgradeStage::Upgrading { prefix, before, backup }, UpgradeEvent::Ran(Ok(o))) => step_ran(
            t,
            home,
            windows,
            UpgradeStage::Upgrading { prefix, before, backup },
            o,
        ),
        (UpgradeStage::Verifying { before, backup, result }, UpgradeEvent::Ran(Ok(o))) => step_ran(
            t,
            home,
            windows,
            UpgradeStage::Verifying { before, backup, result },
            o,
        ),
        (UpgradeStage::MakingDirectory { prefix, before }, UpgradeEvent::Finished(r)) => match r {
            Err(e) => finish_with(e),
            Ok(_) => (UpgradeStage::ReadingClock { prefix, before }, UpgradeAction::ReadClock),
        },
        (UpgradeStage::ReadingClock { prefix, before }, UpgradeEvent::Clock(r)) => match r {
            Err(e) => finish_with(e),
            Ok(now) => {
                let backup = match t {
                    UpgradeTarget::EnvironmentPython { name, .. } => python_upgrade_backup_file(
                        home,
                        name.as_str(),
                        now,
                        windows,
                    ),
                    UpgradeTarget::Conda => conda_upgrade_backup_file(home, now, windows),
                };
                let b2 = backup.clone();
                (UpgradeStage::Exporting { prefix, before, backup }, UpgradeAction::Export(backup_name(t), b2))
            },
        },
        (UpgradeStage::Exporting { prefix, before, backup }, UpgradeEvent::Finished(r)) => match r {
            Err(e) => finish_with(e),
            Ok(_) => (UpgradeStage::Upgrading { prefix, before, backup }, UpgradeAction::RunConda(upgrade_args(t))),
        },
        _ => (UpgradeStage::Done, UpgradeAction::Stop),
    }
}

} // verus!
