use weipython::commands::{default_mode, default_true};
use weipython::domain::{AppSettings, CondaEnvironment};
use weipython::process::ProcessOutput;
use weipython::setup::{
    bootstrap_conda_path, default_install_path, initial_environment_name, initial_environment_prefix,
    initial_packages, initial_target, initial_version, initialized_result, miniconda_install_command,
    miniconda_installed, pip_install_list, printed_version, root_prefix, setup_status,
};
use weipython::storage::{dirs_path, legacy_settings_path, settings_path, settings_temp_path};

fn output(ok: bool, stdout: &str, stderr: &str) -> ProcessOutput {
    ProcessOutput { ok, stdout: stdout.to_string(), stderr: stderr.to_string(), command: "conda --version".to_string() }
}

fn env(name: &str, prefix: &str) -> CondaEnvironment {
    CondaEnvironment {
        name: name.to_string(),
        prefix: prefix.to_string(),
        python: "3.14".to_string(),
        package_count: 1,
        active: false,
    }
}

#[test]
fn request_defaults() {
    assert_eq!(default_mode(), "python");
    assert!(default_true());
    let settings = AppSettings::default();
    assert!(settings.uv_path.is_none() && settings.conda_path.is_none() && settings.ink.is_none());
}

#[test]
fn setup_status_pieces() {
    assert_eq!(default_install_path(None, true), "D:\\ProgramData\\miniconda3");
    assert_eq!(default_install_path(Some("/home/u".into()), false), "/home/u/miniconda3");
    assert_eq!(default_install_path(None, false), "./miniconda3");
    assert_eq!(printed_version(&output(true, "\nconda 24.9.2\n", ""), "conda "), Some("24.9.2".to_string()));
    assert_eq!(printed_version(&output(false, "", "Python 3.12.1"), "Python "), Some("3.12.1".to_string()));
    assert_eq!(printed_version(&output(true, "", ""), "conda "), None);
    assert_eq!(printed_version(&output(true, "  conda 1\n", ""), ""), Some("conda 1".to_string()));
    assert_eq!(root_prefix("/opt/conda/bin/conda", false), Some("/opt/conda".to_string()));
    assert_eq!(root_prefix("C:\\m\\Scripts\\conda.exe", true), Some("C:\\m".to_string()));
    assert_eq!(root_prefix("conda", false), None);
    let status = setup_status(None, 4, "/x".into(), false, Some("1".into()), Some("2".into()), Some("/r".into()));
    assert!(!status.conda_available);
    assert_eq!(status.environment_count, 0);
    assert!(status.conda_version.is_none() && status.root_prefix.is_none());
    let status = setup_status(Some("/c".into()), 4, "/x".into(), true, Some("1".into()), None, Some("/r".into()));
    assert!(status.conda_available);
    assert_eq!(status.environment_count, 4);
    assert_eq!(status.root_prefix, Some("/r".to_string()));
}

#[test]
fn miniconda_is_installed_on_windows_only() {
    assert_eq!(
        miniconda_install_command("D:\\m", false).err(),
        Some("Miniconda 自动安装当前仅支持 Windows x64".to_string())
    );
    let (program, args) = miniconda_install_command("D:\\it's", true).unwrap();
    assert_eq!(program, "powershell.exe");
    assert_eq!(args[..4], ["-NoProfile", "-ExecutionPolicy", "Bypass", "-Command"]);
    assert!(args[4].contains("'/D=D:\\it''s')"));
    assert!(args[4].starts_with("$ErrorActionPreference='Stop'; $installer=Join-Path $env:TEMP 'WJ-Python-Miniconda3.exe';"));
    assert!(args[4].ends_with("if ($p.ExitCode -ne 0) { exit $p.ExitCode }"));
    let done = miniconda_installed(output(true, "ok", "")).ok().unwrap();
    assert_eq!(done.message, "Miniconda 安装完成");
    assert_eq!(miniconda_installed(output(false, "", "")).err(), Some("Miniconda 安装失败".to_string()));
    assert_eq!(bootstrap_conda_path("D:\\m", true), "D:\\m\\Scripts\\conda.exe");
}

#[test]
fn the_first_environment() {
    assert_eq!(initial_version(" ".into()), "3.14");
    assert_eq!(initial_version("3.12".into()), "3.12");
    assert_eq!(initial_environment_name("3.14"), "py314");
    assert_eq!(initial_environment_name("3.12.1a"), "py3121");
    assert_eq!(initial_packages(vec!["numpy".into()]), vec!["ipykernel", "numpy"]);
    let envs = vec![env("base", "/c"), env("PY314", "/c/envs/py314"), env("py314", "/other")];
    assert_eq!(initial_environment_prefix(&envs, "py314"), Ok("/c/envs/py314".to_string()));
    assert_eq!(
        initial_environment_prefix(&envs, "py313"),
        Err("创建完成但未找到 Conda 环境 py313 的实际路径".to_string())
    );
    assert_eq!(pip_install_list(vec!["a".into(), " ".into(), "".into(), "b".into()]), vec!["a", "b"]);
    let target = initial_target("py314".into(), "/c/envs/py314".into());
    assert_eq!(target.target_type, "conda");
    assert_eq!(target.path, Some("/c/envs/py314".to_string()));
    assert!(target.manager.is_none());
    let result = initialized_result("py314", &vec!["one".to_string(), "".to_string(), "two".to_string()]);
    assert_eq!(result.message, "初始化完成，环境 py314 已就绪");
    assert_eq!(result.command, "conda + pip initialization");
    assert_eq!(result.output, "one\n\n\n\ntwo");
}

#[test]
fn settings_locations() {
    assert_eq!(dirs_path(Some("C:\\A".into()), None, None, true), Some("C:\\A".to_string()));
    assert_eq!(dirs_path(None, None, Some("/home/u".into()), false), Some("/home/u/.config".to_string()));
    assert_eq!(dirs_path(None, Some("/xdg".into()), Some("/home/u".into()), false), Some("/xdg".to_string()));
    assert_eq!(dirs_path(None, None, None, false), None);
    let base = Some("/home/u/.config".to_string());
    assert_eq!(settings_path(&base, false), Ok("/home/u/.config/WJ Python Manager/settings.json".to_string()));
    assert_eq!(legacy_settings_path(&base, false), Ok("/home/u/.config/WeiPython/settings.json".to_string()));
    assert_eq!(settings_temp_path(&base, false), Ok("/home/u/.config/WJ Python Manager/settings.json.tmp".to_string()));
    assert_eq!(settings_path(&None, false), Err("无法定位应用数据目录".to_string()));
}
