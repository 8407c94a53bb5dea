use weipython::process::ProcessOutput;
use weipython::system::PythonOwner;
use weipython::system_flow::{
    system_upgrade_step, uninstall_step, SystemAction, SystemEvent, SystemUpgradeStage, UninstallStage,
};
use weipython::upgrade::{upgrade_step, UpgradeAction, UpgradeEvent, UpgradeStage, UpgradeTarget};

fn out(ok: bool, stdout: &str, stderr: &str) -> ProcessOutput {
    ProcessOutput { ok, stdout: stdout.into(), stderr: stderr.into(), command: "conda install".into() }
}

fn error_of(action: UpgradeAction) -> String {
    match action {
        UpgradeAction::Finish(Err(e)) => e,
        _ => panic!("an error was expected"),
    }
}

fn python_target(name: &str, version: &str) -> UpgradeTarget {
    UpgradeTarget::EnvironmentPython { name: name.into(), version: version.into(), channel: "conda-forge".into() }
}

#[test]
fn a_python_upgrade_runs_in_order() {
    let t = python_target("work", "3.12");
    let home = "/home/u";
    let (s, a) = upgrade_step(&t, home, false, UpgradeStage::Start, UpgradeEvent::Begin);
    assert!(matches!(a, UpgradeAction::ListEnvironments));
    let envs = vec![("base".to_string(), "/opt/conda".to_string()), ("work".to_string(), "/opt/conda/envs/work".to_string())];
    let (s, a) = upgrade_step(&t, home, false, s, UpgradeEvent::Environments(Ok(envs)));
    match &a {
        UpgradeAction::RunConda(args) => {
            assert_eq!(args.first().map(String::as_str), Some("install"));
            assert_eq!(args.last().map(String::as_str), Some("--dry-run"));
            assert!(args.contains(&"python=3.12".to_string()));
        },
        _ => panic!("the dry run should come first"),
    }
    let (s, a) = upgrade_step(&t, home, false, s, UpgradeEvent::Ran(Ok(out(true, "", ""))));
    match &a {
        UpgradeAction::MakeDirectory(d) => assert_eq!(d, "/home/u/Documents/WJ Python Manager/exports"),
        _ => panic!("the export folder should be made"),
    }
    let (s, a) = upgrade_step(&t, home, false, s, UpgradeEvent::Finished(Ok(())));
    assert!(matches!(a, UpgradeAction::ReadClock));
    let (s, a) = upgrade_step(&t, home, false, s, UpgradeEvent::Clock(Ok(42)));
    match &a {
        UpgradeAction::Export(name, file) => {
            assert_eq!(name, "work");
            assert_eq!(file, "/home/u/Documents/WJ Python Manager/exports/work-before-upgrade-42.yml");
        },
        _ => panic!("the backup should be exported"),
    }
    let (s, a) = upgrade_step(&t, home, false, s, UpgradeEvent::Finished(Ok(())));
    match &a {
        UpgradeAction::RunConda(args) => assert_eq!(args.last().map(String::as_str), Some("-y")),
        _ => panic!("the upgrade should run"),
    }
    let (s, a) = upgrade_step(&t, home, false, s, UpgradeEvent::Ran(Ok(out(true, "done", ""))));
    match &a {
        UpgradeAction::Run(program, args) => {
            assert_eq!(program, "/opt/conda/envs/work/bin/python");
            assert_eq!(args, &vec!["--version".to_string()]);
        },
        _ => panic!("the version should be read"),
    }
    let (_, a) = upgrade_step(&t, home, false, s, UpgradeEvent::Ran(Ok(out(true, "Python 3.12.4", ""))));
    match a {
        UpgradeAction::Finish(Ok(r)) => {
            assert_eq!(r.message, "Conda 环境 Python 升级完成");
            assert_eq!(r.output, "done");
            assert_eq!(r.command, "conda install");
        },
        _ => panic!("the upgrade should be done"),
    }
}

#[test]
fn python_upgrade_failures_end_it() {
    let (_, a) = upgrade_step(&python_target(" ", "3.12"), "/h", false, UpgradeStage::Start, UpgradeEvent::Begin);
    assert_eq!(error_of(a), "环境名称和目标 Python 版本不能为空");
    let t = python_target("work", "3.12");
    let (_, a) = upgrade_step(&t, "/h", false, UpgradeStage::Finding, UpgradeEvent::Environments(Ok(Vec::new())));
    assert_eq!(error_of(a), "未找到目标环境");
    let stage = UpgradeStage::Checking { prefix: "/p".into(), before: String::new() };
    let (_, a) = upgrade_step(&t, "/h", false, stage, UpgradeEvent::Ran(Ok(out(false, "", ""))));
    assert_eq!(error_of(a), "升级依赖检查失败");
    let stage = UpgradeStage::Verifying { before: String::new(), backup: "/b.yml".into(), result: out(true, "", "") };
    let (_, a) = upgrade_step(&t, "/h", false, stage, UpgradeEvent::Ran(Ok(out(true, "Python 3.11.2", ""))));
    assert_eq!(error_of(a), "升级后校验失败：期望 3.12，实际 3.11.2；备份位于 /b.yml");
    let (_, a) = upgrade_step(&t, "/h", false, UpgradeStage::Start, UpgradeEvent::Clock(Ok(1)));
    assert!(matches!(a, UpgradeAction::Stop));
}

#[test]
fn a_conda_upgrade_reports_both_versions() {
    let t = UpgradeTarget::Conda;
    let (s, a) = upgrade_step(&t, "/h", false, UpgradeStage::Start, UpgradeEvent::Begin);
    assert!(matches!(a, UpgradeAction::RunConda(ref v) if v == &vec!["--version".to_string()]));
    let (s, _) = upgrade_step(&t, "/h", false, s, UpgradeEvent::Ran(Ok(out(true, "conda 24.1", ""))));
    let (s, _) = upgrade_step(&t, "/h", false, s, UpgradeEvent::Ran(Ok(out(true, "", ""))));
    let (s, _) = upgrade_step(&t, "/h", false, s, UpgradeEvent::Finished(Ok(())));
    let (s, a) = upgrade_step(&t, "/h", false, s, UpgradeEvent::Clock(Ok(7)));
    match &a {
        UpgradeAction::Export(name, file) => {
            assert_eq!(name, "base");
            assert_eq!(file, "/h/Documents/WJ Python Manager/exports/base-before-conda-upgrade-7.yml");
        },
        _ => panic!("the backup should be exported"),
    }
    let (s, _) = upgrade_step(&t, "/h", false, s, UpgradeEvent::Finished(Ok(())));
    let (s, a) = upgrade_step(&t, "/h", false, s, UpgradeEvent::Ran(Ok(out(true, "updated", ""))));
    assert!(matches!(a, UpgradeAction::RunConda(_)));
    let (_, a) = upgrade_step(&t, "/h", false, s, UpgradeEvent::Ran(Ok(out(true, "conda 24.5", ""))));
    match a {
        UpgradeAction::Finish(Ok(r)) => {
            assert_eq!(r.message, "Conda 核心包升级完成");
            assert_eq!(
                r.output,
                "updated\n升级前：conda 24.1\n升级后：conda 24.5\n备份：/h/Documents/WJ Python Manager/exports/base-before-conda-upgrade-7.yml"
            );
        },
        _ => panic!("the upgrade should be done"),
    }
    let (_, a) = upgrade_step(&t, "/h", false, UpgradeStage::ReadingBefore, UpgradeEvent::Ran(Err("未检测到 Conda".into())));
    assert_eq!(error_of(a), "未检测到 Conda");
}

fn system_error(action: SystemAction) -> String {
    match action {
        SystemAction::Finish(Err(e)) => e,
        _ => panic!("an error was expected"),
    }
}

#[test]
fn a_system_python_upgrade_runs_winget() {
    let path = " C:\\Python312\\python.exe ";
    let (_, a) = system_upgrade_step(path, false, SystemUpgradeStage::Start, SystemEvent::Begin);
    assert_eq!(system_error(a), "普通系统 Python 的一键升级当前仅支持 Windows；请使用原安装器或系统包管理器升级");
    let (s, a) = system_upgrade_step(path, true, SystemUpgradeStage::Start, SystemEvent::Begin);
    assert!(matches!(a, SystemAction::CheckFile(ref p) if p == "C:\\Python312\\python.exe"));
    let (_, a) = system_upgrade_step(path, true, SystemUpgradeStage::CheckingFile, SystemEvent::IsFile(false));
    assert_eq!(system_error(a), "选中的 Python 路径不存在，无法升级");
    let (s, _) = system_upgrade_step(path, true, s, SystemEvent::IsFile(true));
    let (_, a) = system_upgrade_step(path, true, SystemUpgradeStage::FindingOwner, SystemEvent::Owner(PythonOwner::Conda(0)));
    assert_eq!(system_error(a), "这是 Conda 环境，请使用“Conda Python 升级”入口");
    let (s, a) = system_upgrade_step(path, true, s, SystemEvent::Owner(PythonOwner::Unmanaged));
    assert!(matches!(a, SystemAction::Run(_, _)));
    let (s, a) = system_upgrade_step(path, true, s, SystemEvent::Ran(out(true, "Python 3.12.1", "")));
    assert!(matches!(a, SystemAction::FindProgram(ref p) if p == "winget"));
    let (_, a) = system_upgrade_step(
        path,
        true,
        SystemUpgradeStage::FindingWinget { current: "3.12.1".into(), package_id: "Python.Python.3.12".into() },
        SystemEvent::Found(None),
    );
    assert_eq!(system_error(a), "未检测到 winget，请先安装 Windows App Installer");
    let (s, a) = system_upgrade_step(path, true, s, SystemEvent::Found(Some("winget.exe".into())));
    match &a {
        SystemAction::Run(program, args) => {
            assert_eq!(program, "winget.exe");
            assert_eq!(args[2], "Python.Python.3.12");
        },
        _ => panic!("winget should run"),
    }
    let (s, _) = system_upgrade_step(path, true, s, SystemEvent::Ran(out(true, "upgraded", "")));
    let (_, a) = system_upgrade_step(path, true, s, SystemEvent::Ran(out(true, "Python 3.12.5", "")));
    match a {
        SystemAction::Finish(Ok(r)) => {
            assert_eq!(r.message, "系统 Python 已升级：3.12.1 → 3.12.5");
            assert_eq!(r.output, "upgraded");
        },
        _ => panic!("the upgrade should be done"),
    }
    let (_, a) = system_upgrade_step(path, true, SystemUpgradeStage::ReadingVersion, SystemEvent::Ran(out(true, "Python x", "")));
    assert_eq!(system_error(a), "无法识别选中的 Python 版本");
}

#[test]
fn uninstalling_removes_the_owning_environment() {
    let (s, a) = uninstall_step(" /usr/bin/python3 ", UninstallStage::Start, SystemEvent::Begin);
    assert!(matches!(a, SystemAction::CheckFile(ref p) if p == "/usr/bin/python3"));
    let (_, a) = uninstall_step("/x", UninstallStage::CheckingFile, SystemEvent::IsFile(false));
    assert_eq!(system_error(a), "选中的 Python 路径不存在，无法卸载");
    let (s, _) = uninstall_step("/x", s, SystemEvent::IsFile(true));
    let (_, a) = uninstall_step("/x", s, SystemEvent::Owner(PythonOwner::Venv(2)));
    assert!(matches!(a, SystemAction::RemoveVenv(2)));
    let (_, a) = uninstall_step("/x", UninstallStage::FindingOwner, SystemEvent::Owner(PythonOwner::Unmanaged));
    assert_eq!(
        system_error(a),
        "该 Python 属于系统安装或外部管理器，不能由本程序直接卸载；请从系统应用或原管理器中卸载"
    );
}
