use weipython::domain::CondaEnvironment;
use weipython::process::ProcessOutput;
use weipython::system::{
    command_version, distinct_executables, interpreter_version, is_blocked_windows_alias, overview,
    parse_python_launcher_paths, parse_python_major_minor, python_executable, python_owner, python_upgrade_result,
    uninstall_refusal, unix_candidates, upgrade_refusal, upgrade_supported, version_listing, windows_candidates,
    winget_failure_fallback, winget_package_id, winget_upgrade_args, PythonOwner,
};

fn output(ok: bool, stdout: &str, stderr: &str) -> ProcessOutput {
    ProcessOutput { ok, stdout: stdout.to_string(), stderr: stderr.to_string(), command: "python --version".to_string() }
}

#[test]
fn parses_python_launcher_paths_with_spaces() {
    let paths = parse_python_launcher_paths("-V:3.13 * C:\\Program Files\\Python313\\python.exe\n-V:3.12 C:\\Python312\\python.exe");

    assert_eq!(paths.len(), 2);
    assert_eq!(paths[0], "C:\\Program Files\\Python313\\python.exe");
    assert_eq!(paths[1], "C:\\Python312\\python.exe");
}

#[test]
fn parses_python_major_minor_for_winget_package() {
    assert_eq!(parse_python_major_minor("3.13.7"), Some((3, 13)));
    assert_eq!(parse_python_major_minor("Python 3.13"), None);
}

#[test]
fn launcher_lines_without_an_interpreter_are_skipped() {
    let paths = parse_python_launcher_paths("Installed Pythons found by py Launcher\n -V:3.11 \"C:\\Py311\\PYTHON.EXE\" \n");
    assert_eq!(paths, vec!["C:\\Py311\\PYTHON.EXE"]);
    assert!(parse_python_launcher_paths("").is_empty());
}

#[test]
fn major_minor_edge_cases() {
    assert_eq!(parse_python_major_minor("3"), None);
    assert_eq!(parse_python_major_minor("+3.+12"), Some((3, 12)));
    assert_eq!(parse_python_major_minor("3.12rc1"), None);
    assert_eq!(parse_python_major_minor("4294967296.1"), None);
    assert_eq!(parse_python_major_minor("4294967295.0"), Some((4294967295, 0)));
}

#[test]
fn search_places_per_platform() {
    let found = windows_candidates(Some("C:\\Users\\u".into()), "C:\\A\\python.exe\r\n  \r\n", "");
    assert_eq!(found.len(), 18);
    assert_eq!(found[0], "C:\\Users\\u\\AppData\\Local\\Programs\\Python");
    assert_eq!(found[1], "C:\\Python39");
    assert_eq!(found[16], "D:\\Program Files (x86)\\Python");
    assert_eq!(found[17], "C:\\A\\python.exe");
    assert_eq!(
        unix_candidates(Some("/home/u".into()), Some("/usr/bin/python3".into())),
        vec![
            "/usr/bin/python3",
            "/usr/local/bin/python3",
            "/home/u/.pyenv/versions",
            "/home/u/.asdf/installs/python",
            "/usr/bin/python3"
        ]
    );
    assert_eq!(unix_candidates(None, None), vec!["/usr/bin/python3", "/usr/local/bin/python3"]);
    assert_eq!(python_executable("/opt/py", false), "/opt/py/bin/python3");
    assert_eq!(python_executable("C:\\Py", true), "C:\\Py\\python.exe");
}

#[test]
fn executables_are_asked_once_and_store_aliases_skipped() {
    let all = vec![
        "C:\\Python312\\python.exe".to_string(),
        "c:\\python312\\PYTHON.exe".to_string(),
        "C:\\Users\\u\\AppData\\Local\\Microsoft\\WindowsApps\\python.exe".to_string(),
        "C:\\Python311\\python.exe".to_string(),
    ];
    assert_eq!(distinct_executables(&all, true), vec!["C:\\Python312\\python.exe", "C:\\Python311\\python.exe"]);
    assert_eq!(distinct_executables(&all, false).len(), 3);
    assert!(is_blocked_windows_alias("C:\\X\\WindowsApps\\python.exe", true));
    assert!(!is_blocked_windows_alias("C:\\X\\WindowsApps\\python.exe", false));
}

#[test]
fn interpreter_versions_are_read() {
    assert_eq!(interpreter_version(&output(true, "Python 3.12.1", "")), Some("3.12.1".to_string()));
    assert_eq!(interpreter_version(&output(true, "", "Python 2.7.18")), Some("2.7.18".to_string()));
    assert_eq!(interpreter_version(&output(false, "Python 3.12.1", "")), None);
    assert_eq!(interpreter_version(&output(true, "Python ", "")), Some("Python".to_string()));
    assert_eq!(interpreter_version(&output(true, "  ", "Python 3")), None);
    assert_eq!(command_version(Some(output(true, "Python 3.11.2\nx", ""))), "3.11.2");
    assert_eq!(command_version(Some(output(true, "", "conda 24.1.0"))), "conda 24.1.0");
    assert_eq!(command_version(Some(output(false, "Python 3.11.2", ""))), "未检测到");
    assert_eq!(command_version(None), "未检测到");
}

#[test]
fn the_overview_fills_what_is_missing() {
    let env = CondaEnvironment {
        name: "base".into(),
        prefix: "/opt/conda".into(),
        python: "3.12".into(),
        package_count: 3,
        active: true,
    };
    let o = overview(String::new(), "24.1.0".into(), "linux", Some(vec![env]), 1700000000);
    assert_eq!(o.runtime.python, "未检测到");
    assert_eq!(o.runtime.conda, "24.1.0");
    assert_eq!(o.runtime.platform, "linux");
    assert_eq!(o.environments.len(), 1);
    assert_eq!(o.checked_at, "unix:1700000000");
    assert!(overview("3".into(), "".into(), "windows", None, 0).environments.is_empty());
}

#[test]
fn versions_are_listed_greatest_first() {
    let listed = version_listing(vec![
        ("3.9.1".to_string(), "/a".to_string()),
        ("3.12.0".to_string(), "/b".to_string()),
        ("3.10.4".to_string(), "/c".to_string()),
    ]);
    assert_eq!(listed, vec!["3.9.1 (/a)", "3.12.0 (/b)", "3.10.4 (/c)"]);
}

#[test]
fn owners_of_an_interpreter() {
    let conda = vec!["C:\\conda\\python.exe".to_string()];
    let venvs = vec!["C:\\v\\Scripts\\python.exe".to_string()];
    assert!(matches!(python_owner("c:\\CONDA\\python.exe", &conda, &venvs), PythonOwner::Conda(0)));
    assert!(matches!(python_owner("C:\\v\\Scripts\\python.exe", &conda, &venvs), PythonOwner::Venv(0)));
    let owner = python_owner("C:\\Python312\\python.exe", &conda, &venvs);
    assert!(matches!(owner, PythonOwner::Unmanaged));
    assert_eq!(
        uninstall_refusal(&owner),
        Some("该 Python 属于系统安装或外部管理器，不能由本程序直接卸载；请从系统应用或原管理器中卸载".to_string())
    );
    assert_eq!(uninstall_refusal(&PythonOwner::Conda(0)), None);
}

#[test]
fn system_upgrade_refusals() {
    assert!(upgrade_supported(true).is_ok());
    assert_eq!(
        upgrade_supported(false).err(),
        Some("普通系统 Python 的一键升级当前仅支持 Windows；请使用原安装器或系统包管理器升级".to_string())
    );
    assert_eq!(
        upgrade_refusal(&PythonOwner::Conda(1), "x"),
        Some("这是 Conda 环境，请使用“Conda Python 升级”入口".to_string())
    );
    assert_eq!(
        upgrade_refusal(&PythonOwner::Venv(0), "x"),
        Some("venv 不能直接替换底层 Python；请用目标 Python 重建虚拟环境并重新安装依赖".to_string())
    );
    assert_eq!(
        upgrade_refusal(&PythonOwner::Unmanaged, "C:\\Users\\u\\.PYENV\\pyenv-win\\python.exe"),
        Some("该 Python 由外部版本管理器维护，请使用 pyenv/asdf 升级".to_string())
    );
    assert_eq!(upgrade_refusal(&PythonOwner::Unmanaged, "C:\\Python312\\python.exe"), None);
}

#[test]
fn winget_upgrade_of_a_python_line() {
    let id = winget_package_id(3, 13);
    assert_eq!(id, "Python.Python.3.13");
    assert_eq!(
        winget_upgrade_args(&id),
        vec![
            "upgrade",
            "--id",
            "Python.Python.3.13",
            "--exact",
            "--silent",
            "--accept-source-agreements",
            "--accept-package-agreements",
            "--disable-interactivity"
        ]
    );
    assert_eq!(winget_failure_fallback(&id), "winget 未能升级 Python.Python.3.13");
    let same = python_upgrade_result("3.13.1", "3.13.1", &id, "winget".into(), "out".into());
    assert_eq!(same.err(), Some("未检测到 Python 3.13.1 的可用更新（winget 包：Python.Python.3.13）".to_string()));
    let done = python_upgrade_result("3.13.1", "3.13.2", &id, "winget".into(), "out".into()).ok().unwrap();
    assert_eq!(done.message, "系统 Python 已升级：3.13.1 → 3.13.2");
    assert_eq!(done.output, "out");
}
