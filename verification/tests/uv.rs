use weipython::domain::UvPythonInstallation;
use weipython::process::ProcessOutput;
use weipython::uv::{
    default_directory, install_check, install_plan, install_ran, installation_python, installed_python_version,
    installed_uv, is_direct_child, is_uv_python_installation, managed_uv_path, python_install_directory,
    sort_installations, uv_candidates, uv_companions, uv_installed_result, uv_lookup, uv_python_removal_check,
    uv_python_removed, uv_removed_result, uv_uninstall_refusal, uv_version_text, validate_version,
};

fn output(ok: bool, stdout: &str, stderr: &str) -> ProcessOutput {
    ProcessOutput { ok, stdout: stdout.to_string(), stderr: stderr.to_string(), command: "uv".to_string() }
}

fn inst(version: &str, path: &str) -> UvPythonInstallation {
    UvPythonInstallation { version: version.to_string(), path: path.to_string() }
}

#[test]
fn python_install_folder_of_uv() {
    assert_eq!(python_install_directory(Some("/custom".into()), None, None, None, false), "/custom");
    assert_eq!(
        python_install_directory(Some(String::new()), None, None, Some("/home/u".into()), false),
        "/home/u/.local/share/uv/python"
    );
    assert_eq!(python_install_directory(None, None, Some("/xdg".into()), Some("/home/u".into()), false), "/xdg/uv/python");
    assert_eq!(
        python_install_directory(None, Some("C:\\Users\\u\\AppData\\Roaming".into()), None, None, true),
        "C:\\Users\\u\\AppData\\Roaming\\uv\\python"
    );
    assert_eq!(python_install_directory(None, None, None, None, false), "uv/python");
}

#[test]
fn installations_newest_first_then_by_path() {
    let sorted = sort_installations(vec![
        inst("3.10.1", "/b"),
        inst("3.12.0", "/z"),
        inst("3.10.1", "/a"),
        inst("3.12.0", "/c"),
        inst("3.9", "/d"),
    ]);
    let seen: Vec<(String, String)> = sorted.into_iter().map(|i| (i.version, i.path)).collect();
    assert_eq!(
        seen,
        vec![
            ("3.9".to_string(), "/d".to_string()),
            ("3.12.0".to_string(), "/c".to_string()),
            ("3.12.0".to_string(), "/z".to_string()),
            ("3.10.1".to_string(), "/a".to_string()),
            ("3.10.1".to_string(), "/b".to_string()),
        ]
    );
    let longer_first = sort_installations(vec![inst("3.1", "/x"), inst("3.10", "/y")]);
    assert_eq!(longer_first[0].version, "3.10");
}

#[test]
fn uv_pythons_are_direct_children_of_its_folder() {
    assert!(is_direct_child("/data/uv/python/cpython-3.12", "/data/uv/python", false));
    assert!(!is_direct_child("/data/uv/python/a/b", "/data/uv/python", false));
    assert!(!is_direct_child("/data/uv/python", "/data/uv/python", false));
    assert!(!is_direct_child("data/uv/python/x", "/data/uv/python", false));
    assert!(is_direct_child("c:\\uv\\python\\x", "C:\\uv\\python\\", true));
    assert!(is_uv_python_installation("/r/x", "/r", true, true, false));
    assert!(!is_uv_python_installation("/r/x", "/r", true, false, false));
    assert_eq!(
        uv_python_removal_check("/other/x", "/r", true, true, false).err(),
        Some("所选目录不在 uv 的 Python 安装目录中，已拒绝卸载".to_string())
    );
    let removed = uv_python_removed("/r/x".to_string());
    assert_eq!(removed.message, "uv Python 已卸载");
    assert_eq!(removed.command, "remove /r/x");
    assert_eq!(installation_python("/r/x", false), "/r/x/bin/python");
    assert_eq!(installation_python("C:\\r\\x", true), "C:\\r\\x\\python.exe");
}

#[test]
fn versions_printed_by_interpreters_and_uv() {
    assert_eq!(installed_python_version(&output(true, "\n  \nPython 3.12.3\n", "")), Some("3.12.3".to_string()));
    assert_eq!(installed_python_version(&output(true, "", " Python 3.11.1 ")), Some("3.11.1".to_string()));
    assert_eq!(installed_python_version(&output(false, "Python 3.12.3", "")), None);
    assert_eq!(uv_version_text(&output(false, "", "\n uv 0.8.17 (abc)\n")), Some("uv 0.8.17 (abc)".to_string()));
    assert_eq!(uv_version_text(&output(true, " ", "")), None);
}

#[test]
fn requested_uv_versions_are_checked() {
    assert_eq!(validate_version(None), Ok(None));
    assert_eq!(validate_version(Some("   ".into())), Ok(None));
    assert_eq!(validate_version(Some(" 0.8.17 ".into())), Ok(Some("0.8.17".to_string())));
    assert_eq!(validate_version(Some("v0.8".into())), Err("uv 版本格式无效，例如 0.8.17".to_string()));
    assert_eq!(validate_version(Some("0.8;rm".into())), Err("uv 版本格式无效，例如 0.8.17".to_string()));
}

#[test]
fn places_where_uv_may_be() {
    let (program, args) = uv_lookup(false);
    assert_eq!(program, "which");
    assert_eq!(args, vec!["uv"]);
    let found = uv_candidates(
        Some("/saved/uv".into()),
        "/usr/bin/uv\n\nC:\\Users\\u\\AppData\\Local\\Microsoft\\WindowsApps\\uv.exe\n",
        Some("/home/u".into()),
        None,
        false,
    );
    assert_eq!(found, vec!["/saved/uv", "/usr/bin/uv", "/home/u/.local/bin/uv", "/home/u/.cargo/bin/uv"]);
    let found = uv_candidates(None, "", None, Some("C:\\L".into()), true);
    assert_eq!(found, vec!["C:\\L\\uv\\uv.exe", "C:\\L\\bin\\uv.exe"]);
}

#[test]
fn install_plans() {
    let plan = install_plan(Some("0.8.17".into()), Some("/opt/uv".into()), "/home/u/.local/bin".into(), false).unwrap();
    assert_eq!(plan.version, Some("0.8.17".to_string()));
    assert_eq!(plan.directory, "/opt/uv");
    assert_eq!(plan.program, "sh");
    assert_eq!(
        plan.args,
        vec![
            "-c",
            "script=$(curl -LsSf 'https://astral.sh/uv/0.8.17/install.sh') || exit; printf '%s' \"$script\" | sh"
        ]
    );
    assert_eq!(
        plan.env,
        vec![
            ("UV_INSTALL_DIR".to_string(), "/opt/uv".to_string()),
            ("UV_NO_MODIFY_PATH".to_string(), "1".to_string())
        ]
    );
    let plan = install_plan(None, Some(" ".into()), "C:\\Users\\u\\.local\\bin".into(), true).unwrap();
    assert_eq!(plan.directory, "C:\\Users\\u\\.local\\bin");
    assert_eq!(plan.program, "powershell.exe");
    assert_eq!(plan.args[5], "$ErrorActionPreference='Stop'; irm 'https://astral.sh/uv/install.ps1' | iex");
    assert_eq!(install_plan(None, Some("relative".into()), "/x".into(), false).err(), Some("安装目录必须是绝对路径".to_string()));
    assert_eq!(
        install_plan(Some("latest".into()), None, "/x".into(), false).err(),
        Some("uv 版本格式无效，例如 0.8.17".to_string())
    );
}

#[test]
fn installs_are_checked() {
    assert!(install_ran(&output(true, "", "")).is_ok());
    assert_eq!(install_ran(&output(false, "", "")).err(), Some("uv 安装失败，请检查网络连接或手动安装 uv".to_string()));
    assert_eq!(installed_uv("/opt/uv", false), "/opt/uv/uv");
    assert_eq!(installed_uv("C:\\uv", true), "C:\\uv\\uv.exe");
    assert!(install_check(&output(true, "uv 0.8.17 (x 2025)", ""), &Some("0.8.17".into())).is_ok());
    assert!(install_check(&output(true, "uv  0.8.17", ""), &None).is_ok());
    assert_eq!(
        install_check(&output(true, "uv 0.8.16", ""), &Some("0.8.17".into())).err(),
        Some("安装版本不匹配：期望 0.8.17，实际 uv 0.8.16".to_string())
    );
    assert_eq!(install_check(&output(false, "", "no uv"), &None).err(), Some("no uv".to_string()));
    let result = uv_installed_result(&Some("0.8.17".into()), "/opt/uv/uv", "sh".into(), "done".into(), "  ".into());
    assert_eq!(result.message, "uv 版本 0.8.17 安装完成：/opt/uv/uv");
    assert_eq!(result.output, "done");
    let result = uv_installed_result(&None, "/opt/uv/uv", "sh".into(), "a".into(), "b".into());
    assert_eq!(result.message, "uv 安装完成：/opt/uv/uv");
    assert_eq!(result.output, "a\nb");
}

#[test]
fn only_managed_or_saved_uv_is_uninstalled() {
    let home = Some("/Home/U".to_string());
    assert!(managed_uv_path("/home/u/.local/bin/uv", &home, &None, false));
    assert!(managed_uv_path("/home/u/.cargo/bin/uv", &home, &None, false));
    assert!(!managed_uv_path("/usr/bin/uv", &home, &None, false));
    assert!(managed_uv_path("c:\\l\\uv\\uv.exe", &None, &Some("C:\\L".to_string()), true));
    assert_eq!(uv_uninstall_refusal("/usr/bin/uv", &Some("/usr/bin/uv".into()), false), None);
    assert_eq!(uv_uninstall_refusal("/opt/uv", &None, true), None);
    assert_eq!(
        uv_uninstall_refusal("/usr/bin/uv", &None, false),
        Some("检测到的 uv 不在本程序管理的用户目录中，请使用原安装方式卸载".to_string())
    );
    assert_eq!(uv_companions("/home/u/.local/bin/uv", false), vec!["/home/u/.local/bin/uvx.exe", "/home/u/.local/bin/uvx"]);
    assert!(uv_companions("", false).is_empty());
    let removed = uv_removed_result("/x/uv".into());
    assert_eq!(removed.command, "remove /x/uv");
    assert_eq!(removed.output, "/x/uv");
}

#[test]
fn default_uv_folder() {
    assert_eq!(default_directory(Some("/usr/local/bin/uv".into()), Some("/home/u".into()), false), "/usr/local/bin");
    assert_eq!(default_directory(None, Some("/home/u".into()), false), "/home/u/.local/bin");
    assert_eq!(default_directory(None, None, false), ".local/bin");
}
