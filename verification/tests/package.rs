use weipython::domain::{EnvironmentTarget, Package};
use weipython::package::{
    installed_packages, list_args, normalize_package_spec, outdated_args, outdated_names, package_done, package_plan,
    pip_checked, pip_command, target_path, upgrade_all_step, PackagePlan, UpgradeAllStep,
};
use weipython::process::ProcessOutput;

fn output(ok: bool, stdout: &str, stderr: &str) -> ProcessOutput {
    ProcessOutput { ok, stdout: stdout.to_string(), stderr: stderr.to_string(), command: "pip".to_string() }
}

fn target(manager: Option<&str>) -> EnvironmentTarget {
    EnvironmentTarget {
        target_type: "conda".into(),
        name: Some("work".into()),
        path: Some("/opt/env".into()),
        manager: manager.map(|m| m.to_string()),
    }
}

fn run_args(plan: Result<PackagePlan, String>) -> Vec<String> {
    match plan {
        Ok(PackagePlan::Run(args)) => args,
        Ok(PackagePlan::UpgradeAll(_)) => panic!("expected a plain run"),
        Err(e) => panic!("unexpected error {e}"),
    }
}

#[test]
fn venv_packages_use_the_venv_interpreter() {
    let target = EnvironmentTarget { target_type: "venv".into(), path: Some("sample-env".into()), ..Default::default() };
    let path = target_path(&target, false).unwrap();
    assert!(path.ends_with("bin/python"));
}

#[test]
fn normalizes_wei_data_shu_extra_syntax() {
    assert_eq!(normalize_package_spec("wei_data_shu.database"), "wei-data-shu[database]");
    assert_eq!(normalize_package_spec("wei-data-shu.excel_client"), "wei-data-shu[excel-client]");
    assert_eq!(normalize_package_spec("numpy"), "numpy");
}

#[test]
fn package_spec_keeps_unknown_extras_and_trims() {
    assert_eq!(normalize_package_spec("  WEI_DATA_SHU.Excel "), "wei-data-shu[excel]");
    assert_eq!(normalize_package_spec("wei_data_shu.other"), "wei_data_shu.other");
    assert_eq!(normalize_package_spec(" requests==2.0 "), "requests==2.0");
}

#[test]
fn windows_venv_and_conda_interpreters() {
    let venv = EnvironmentTarget { target_type: "venv".into(), path: Some("C:\\env".into()), ..Default::default() };
    assert_eq!(target_path(&venv, true).unwrap(), "C:\\env\\Scripts\\python.exe");
    let conda = EnvironmentTarget { target_type: "conda".into(), path: Some("C:\\env".into()), ..Default::default() };
    assert_eq!(target_path(&conda, true).unwrap(), "C:\\env\\python.exe");
    let blank = EnvironmentTarget { target_type: "conda".into(), path: Some("  ".into()), ..Default::default() };
    assert_eq!(target_path(&blank, false).err().unwrap(), "缺少目标环境路径");
    assert_eq!(target_path(&EnvironmentTarget::default(), false).err().unwrap(), "缺少目标环境路径");
}

#[test]
fn pip_runs_through_the_interpreter_or_uv() {
    let (program, args) = pip_command(&target(None), list_args(), None, false).unwrap();
    assert_eq!(program, "/opt/env/bin/python");
    assert_eq!(args, vec!["-m", "pip", "list", "--format=json"]);
    let (program, args) = pip_command(&target(Some("uv")), list_args(), Some("/bin/uv".into()), false).unwrap();
    assert_eq!(program, "/bin/uv");
    assert_eq!(args, vec!["pip", "list", "--format=json", "--python", "/opt/env/bin/python"]);
    assert_eq!(
        pip_command(&target(Some("uv")), list_args(), None, false).err().unwrap(),
        "未检测到 uv，请先安装或在设置中配置 uv 路径"
    );
}

#[test]
fn missing_pip_is_reported() {
    let checked = pip_checked(output(false, "", "/opt/env/bin/python: No module named pip"));
    assert_eq!(checked.err().unwrap(), "目标环境未安装 pip，请先执行 python -m ensurepip 或重新创建环境");
    assert!(pip_checked(output(false, "", "other error")).is_ok());
    assert!(pip_checked(output(true, "", "No module named pip")).is_ok());
}

fn package(name: &str, version: &str) -> Package {
    Package { name: name.to_string(), version: version.to_string() }
}

#[test]
fn installed_packages_are_read_from_pip_json() {
    let parsed = Ok(vec![package("numpy", "2.1.0"), package("pip", "24.0")]);
    let packages = installed_packages(&output(true, r#"[{"name":"numpy","version":"2.1.0"},{"name":"pip","version":"24.0"}]"#, ""), parsed).unwrap();
    assert_eq!(packages.len(), 2);
    assert_eq!(packages[0].name, "numpy");
    assert_eq!(packages[0].version, "2.1.0");
    assert_eq!(packages[1].name, "pip");
    assert_eq!(installed_packages(&output(false, "", "boom"), Ok(Vec::new())).err().unwrap(), "boom");
    assert_eq!(installed_packages(&output(false, "", ""), Ok(Vec::new())).err().unwrap(), "读取已安装包失败");
    let err = installed_packages(&output(true, "not json", ""), Err("expected ident at line 1 column 2".into())).err().unwrap();
    assert_eq!(err, "解析 pip 包列表失败: expected ident at line 1 column 2");
}

#[test]
fn outdated_packages_are_named() {
    let names = outdated_names(&output(true, "[]", ""), Ok(vec!["numpy".to_string(), "pip".to_string()])).unwrap();
    assert_eq!(names, vec!["numpy", "pip"]);
    assert_eq!(outdated_names(&output(false, "", ""), Ok(Vec::new())).err().unwrap(), "读取可升级包失败");
    assert_eq!(
        outdated_names(&output(true, "{}", ""), Err("invalid type: map, expected a sequence at line 1 column 0".into())).err().unwrap(),
        "解析可升级包列表失败: invalid type: map, expected a sequence at line 1 column 0"
    );
    assert_eq!(outdated_args(&None), vec!["list", "--outdated", "--format=json"]);
    assert_eq!(
        outdated_args(&Some("https://mirror/simple".into())),
        vec!["list", "--outdated", "--format=json", "--index-url", "https://mirror/simple"]
    );
    assert_eq!(outdated_args(&Some("  ".into())), vec!["list", "--outdated", "--format=json"]);
}

#[test]
fn install_and_upgrade_normalize_the_package() {
    let args = run_args(package_plan(&target(None), "install", Some("wei_data_shu.analysis".into()), None, None));
    assert_eq!(args, vec!["install", "wei-data-shu[analysis]"]);
    let args = run_args(package_plan(
        &target(None),
        "upgrade",
        Some("numpy".into()),
        Some("https://pypi.org/simple".into()),
        None,
    ));
    assert_eq!(args, vec!["install", "--upgrade", "--index-url", "https://pypi.org/simple", "numpy"]);
}

#[test]
fn uninstall_and_show_never_take_an_index() {
    let args = run_args(package_plan(&target(None), "uninstall", Some("numpy".into()), Some("https://x".into()), None));
    assert_eq!(args, vec!["uninstall", "-y", "numpy"]);
    let args = run_args(package_plan(&target(Some("uv")), "uninstall", Some("numpy".into()), None, None));
    assert_eq!(args, vec!["uninstall", "numpy"]);
    let args = run_args(package_plan(&target(None), "show", Some("wei_data_shu.excel".into()), Some("https://x".into()), None));
    assert_eq!(args, vec!["show", "wei_data_shu.excel"]);
}

#[test]
fn other_package_actions() {
    assert_eq!(
        run_args(package_plan(&target(None), "latest", Some("numpy".into()), None, None)),
        vec!["index", "versions", "numpy"]
    );
    assert_eq!(run_args(package_plan(&target(None), "upgrade-pip", None, None, None)), vec!["install", "--upgrade", "pip"]);
    assert_eq!(
        run_args(package_plan(&target(None), "requirements", None, None, Some("/r.txt".into()))),
        vec!["install", "-r", "/r.txt"]
    );
    match package_plan(&target(None), "upgrade-all", None, Some("http://m".into()), None).unwrap() {
        PackagePlan::UpgradeAll(args) => assert_eq!(args, vec!["install", "--upgrade", "--index-url", "http://m"]),
        PackagePlan::Run(_) => panic!("expected the outdated query first"),
    }
}

#[test]
fn package_action_errors() {
    assert_eq!(
        package_plan(&target(None), "install", Some("numpy".into()), Some("ftp://x".into()), None).err(),
        Some("下载源必须使用 http:// 或 https://".to_string())
    );
    assert_eq!(
        package_plan(&target(None), "explode", Some("numpy".into()), None, None).err(),
        Some("不支持的包操作: explode".to_string())
    );
    assert_eq!(
        package_plan(&target(None), "requirements", None, None, None).err(),
        Some("缺少 requirements 文件路径".to_string())
    );
    assert_eq!(package_plan(&target(None), "install", Some(" ".into()), None, None).err(), Some("缺少包名".to_string()));
    assert!(package_plan(&target(None), "install", Some("numpy".into()), Some(String::new()), None).is_ok());
}

#[test]
fn upgrade_all_with_nothing_outdated_is_done() {
    match upgrade_all_step(vec!["install".into(), "--upgrade".into()], vec![]) {
        UpgradeAllStep::UpToDate(result) => {
            assert!(result.ok);
            assert_eq!(result.message, "所有包均已是最新版本");
            assert_eq!(result.command, "pip list --outdated");
            assert_eq!(result.output, "没有需要升级的包");
        },
        UpgradeAllStep::Run(_) => panic!("nothing to upgrade"),
    }
    match upgrade_all_step(vec!["install".into(), "--upgrade".into()], vec!["a".into(), "b".into()]) {
        UpgradeAllStep::Run(args) => assert_eq!(args, vec!["install", "--upgrade", "a", "b"]),
        UpgradeAllStep::UpToDate(_) => panic!("two packages to upgrade"),
    }
}

#[test]
fn package_action_results() {
    let done = package_done(output(true, "installed", "")).unwrap();
    assert!(done.ok);
    assert_eq!(done.message, "包操作完成");
    assert_eq!(done.output, "installed");
    let done = package_done(output(true, "out", "warn")).unwrap();
    assert_eq!(done.output, "out\nwarn");
    assert_eq!(package_done(output(false, "out", "bad")).err().unwrap(), "bad");
    assert_eq!(package_done(output(false, "", "")).err().unwrap(), "包操作失败");
}
