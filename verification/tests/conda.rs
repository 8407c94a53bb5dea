use weipython::conda::{
    cache_entry_fresh, cache_key, cache_path, clone_temp_file, conda_package_cache_candidates,
    conda_python_version, create_plan, default_export_directory, default_export_file, import_args,
    python_executable, python_versions_from, remove_args, safe_file_name, search_args, upgrade_python_args,
    version_matches, CondaCreatePlan,
};
use weipython::conda_list::{environment_list_candidates, environment_list_outcome, CondaEnvironmentList, CondaEnvironmentMeta};
use weipython::json::parse_json_value;
use weipython::yaml::rewrite_clone_yaml;

fn listed(envs: &[&str]) -> CondaEnvironmentList {
    CondaEnvironmentList { envs: envs.iter().map(|e| e.to_string()).collect(), envs_details: Vec::new() }
}

#[test]
fn parses_json_from_stderr_when_stdout_is_empty() {
    let stderr = r#"{"envs":["D:\\conda"],"envs_details":{}}"#;
    let candidates = environment_list_candidates("", stderr);
    assert_eq!(candidates, vec![stderr.to_string(), "{}}".to_string()]);
    let parsed = environment_list_outcome(vec![Ok(listed(&["D:\\conda"]))], "", stderr)
        .expect("Conda JSON should be parsed from stderr");

    assert_eq!(parsed.envs, vec!["D:\\conda"]);
}

#[test]
fn ignores_diagnostics_before_json() {
    let stdout = "plugin: warning {ignored}\n{\"envs\":[],\"envs_details\":{}}\n";
    let candidates = environment_list_candidates(stdout, "");
    assert_eq!(
        candidates,
        vec!["{ignored}\n{\"envs\":[],\"envs_details\":{}}\n", "{\"envs\":[],\"envs_details\":{}}\n", "{}}\n"]
    );
    let attempts = vec![Err("key must be a string at line 1 column 2".to_string()), Ok(listed(&[]))];
    let parsed = environment_list_outcome(attempts, stdout, "").expect("Conda JSON should be parsed after diagnostics");

    assert!(parsed.envs.is_empty());
}

#[test]
fn reports_empty_output_without_eof_error() {
    assert!(environment_list_candidates("", "").is_empty());
    let error = match environment_list_outcome(Vec::new(), "", "") {
        Ok(_) => panic!("empty output should fail"),
        Err(e) => e,
    };

    assert_eq!(error, "Conda 未返回环境 JSON");
}

#[test]
fn environment_list_candidates_follow_each_brace() {
    assert_eq!(environment_list_candidates("\u{feff}\u{feff}{a", "x{b{c"), vec!["{a", "{b{c", "{c"]);
    assert!(environment_list_candidates("no json", "here").is_empty());
}

#[test]
fn environment_list_outcome_takes_the_first_list() {
    let details = vec![("/opt/conda/envs/work".to_string(), CondaEnvironmentMeta { name: Some("work".into()), active: Some(true) })];
    let first = CondaEnvironmentList { envs: vec!["/opt/conda/envs/work".into()], envs_details: details };
    let parsed = environment_list_outcome(vec![Err("bad".into()), Ok(first), Ok(listed(&["/other"]))], "", "").unwrap();
    assert_eq!(parsed.envs, vec!["/opt/conda/envs/work"]);
    assert_eq!(parsed.envs_details[0].1.name, Some("work".to_string()));
}

#[test]
fn environment_list_errors_name_what_went_wrong() {
    let error = environment_list_outcome(vec![Err("first".into()), Err("missing field `envs` at line 1 column 11".into())], "{\"other\":1}", "")
        .err()
        .unwrap();
    assert_eq!(error, "解析 Conda 环境失败: missing field `envs` at line 1 column 11");
    let error = environment_list_outcome(Vec::new(), " out ", "  err\n").err().unwrap();
    assert_eq!(error, "Conda 未返回有效环境 JSON: err");
    let error = environment_list_outcome(Vec::new(), " out ", " ").err().unwrap();
    assert_eq!(error, "Conda 未返回有效环境 JSON: out");
}

#[test]
fn clone_rewrite_keeps_nested_pip_packages_and_removes_unsafe_specs() {
    let yaml = "name: base\nchannels:\n  - defaults\ndependencies:\n  - python=3.13\n  - conda-anaconda-tos=1\n  - pip:\n    - requests==2.32.0\nprefix: C:\\old";
    let rewritten = rewrite_clone_yaml(yaml, "new-env", Some("3.14"), true, true, Some("conda-forge"));
    assert!(rewritten.contains("name: new-env"));
    assert!(rewritten.contains("  - python=3.14"));
    assert!(rewritten.contains("requests==2.32.0"));
    assert!(!rewritten.contains("conda-anaconda-tos"));
    assert!(!rewritten.contains("prefix:"));
    assert!(rewritten.contains("  - conda-forge"));
}

#[test]
fn version_search_accepts_diagnostic_prefix() {
    let value = parse_json_value("warning: plugin\n{\"python\":[]}", "").unwrap();
    assert!(value.get("python").is_some());
}

#[test]
fn json_value_is_found_in_stderr() {
    let value = parse_json_value("", "note\n{\"a\":\"b\"}").unwrap();
    assert!(value.get("a").is_some());
    assert!(value.get("z").is_none());
}

#[test]
fn missing_json_is_an_error() {
    assert!(parse_json_value("no json here", "").is_err());
}

#[test]
fn export_paths_use_a_safe_file_name() {
    assert_eq!(safe_file_name(" a/b:c "), "a_b_c");
    assert_eq!(safe_file_name("   "), "conda-environment");
    assert_eq!(default_export_directory("/home/u", false), "/home/u/Documents/WJ Python Manager/exports");
    assert_eq!(
        default_export_file("/home/u", "my env", false),
        "/home/u/Documents/WJ Python Manager/exports/my env.yml"
    );
    assert_eq!(
        default_export_file("C:\\Users\\u", "x?y", true),
        "C:\\Users\\u\\Documents\\WJ Python Manager\\exports\\x_y.yml"
    );
}

#[test]
fn the_export_file_lies_in_the_export_directory() {
    for name in ["a/b", "/lead", "../up", "  ", "x"] {
        let file = default_export_file("/home/u/", name, false);
        let (parent, last) = file.rsplit_once('/').unwrap();
        assert_eq!(parent, default_export_directory("/home/u/", false));
        assert!(last.ends_with(".yml") && !last.is_empty());
    }
}

#[test]
fn prefix_lines_and_base_only_entries_change_nothing_in_a_clone() {
    let yaml = "name: base\ndependencies:\n  - python=3.12\n  - numpy=2.0\n";
    let with_prefix = "prefix: /opt/conda\nname: base\ndependencies:\n  - python=3.12\n  - numpy=2.0\n  prefix: /x\n";
    let with_tos = "name: base\ndependencies:\n  - conda-anaconda-tos=0.2\n  - python=3.12\n  - numpy=2.0\n";
    let plain = rewrite_clone_yaml(yaml, "copy", None, true, true, None);
    assert_eq!(rewrite_clone_yaml(with_prefix, "copy", None, true, true, None), plain);
    assert_eq!(rewrite_clone_yaml(with_tos, "copy", None, true, true, None), plain);
    assert_eq!(plain, "name: copy\ndependencies:\n  - python=3.12\n  - numpy=2.0");
}

#[test]
fn conda_interpreter_paths() {
    assert_eq!(python_executable("/opt/conda", false), "/opt/conda/bin/python");
    assert_eq!(python_executable("C:\\conda", true), "C:\\conda\\python.exe");
}

#[test]
fn package_cache_candidates_per_platform() {
    assert_eq!(
        conda_package_cache_candidates(false, None, "/tmp", "/home/u"),
        vec!["/home/u/.conda/pkgs", "/tmp/wj-python-manager/conda-pkgs"]
    );
    assert_eq!(
        conda_package_cache_candidates(true, Some("C:\\L".to_string()), "C:\\T", "C:\\H"),
        vec!["C:\\L\\conda\\pkgs", "C:\\T\\WJ Python Manager\\conda-pkgs"]
    );
}

#[test]
fn conda_python_version_reads_the_first_line() {
    assert_eq!(conda_python_version("Python 3.12.4\nmore", ""), "3.12.4");
    assert_eq!(conda_python_version("", "Python 3.11.0"), "3.11.0");
    assert_eq!(conda_python_version("", ""), "未知");
}

#[test]
fn create_plan_for_a_new_environment() {
    let plan = create_plan(
        "work",
        "python",
        None,
        None,
        true,
        true,
        Some("3.12".to_string()),
        Some("conda-forge".to_string()),
        vec!["numpy".to_string(), " ".to_string()],
    )
    .unwrap();
    match plan {
        CondaCreatePlan::Run(args) => assert_eq!(
            args,
            vec!["create", "-n", "work", "-c", "conda-forge", "--override-channels", "python=3.12", "numpy", "-y"]
        ),
        _ => panic!("expected a plain create"),
    }
}

#[test]
fn create_plan_for_clones() {
    match create_plan("copy", "clone", Some("base".to_string()), None, true, true, None, None, vec![]).unwrap() {
        CondaCreatePlan::Run(args) => assert_eq!(args, vec!["create", "-n", "copy", "--clone", "base", "-y"]),
        _ => panic!("expected a full clone"),
    }
    match create_plan("copy", "clone", Some("base".to_string()), Some("3.13".to_string()), true, true, None, None, vec![])
        .unwrap()
    {
        CondaCreatePlan::CloneByExport(args, target) => {
            assert_eq!(args, vec!["env", "export", "-n", "base", "--no-builds"]);
            assert_eq!(target, Some("3.13".to_string()));
        },
        _ => panic!("expected a clone by export"),
    }
    assert!(create_plan("copy", "clone", None, None, true, true, None, None, vec![]).is_err());
    assert!(create_plan("a/b", "python", None, None, true, true, None, None, vec![]).is_err());
    assert!(create_plan("  ", "python", None, None, true, true, None, None, vec![]).is_err());
}

#[test]
fn base_environment_is_never_removed() {
    assert!(remove_args("base").is_err());
    assert!(remove_args(" ").is_err());
    assert_eq!(remove_args("work").unwrap(), vec!["env", "remove", "-n", "work", "-y"]);
}

#[test]
fn import_and_search_arguments() {
    assert_eq!(import_args("/x.yml", None), vec!["env", "create", "-f", "/x.yml", "-y"]);
    assert_eq!(import_args("/x.yml", Some("n".to_string())), vec!["env", "create", "-f", "/x.yml", "-y", "-n", "n"]);
    assert_eq!(
        search_args("3.12", "conda-forge"),
        vec!["search", "-c", "conda-forge", "--override-channels", "python=3.12", "--json"]
    );
}

#[test]
fn version_search_cache() {
    assert_eq!(cache_key(" 3.12 ", " conda-forge "), "conda-forge::3.12");
    assert!(cache_entry_fresh(4000, 1000));
    assert!(!cache_entry_fresh(4600, 1000));
    assert!(cache_entry_fresh(10, 20));
    assert_eq!(
        cache_path(false, None, None, Some("/home/u".to_string())),
        Some("/home/u/.config/WJ Python Manager/conda-python-versions.json".to_string())
    );
    assert_eq!(cache_path(true, None, None, Some("/home/u".to_string())), None);
}

#[test]
fn python_versions_are_newest_first_without_repeats() {
    let parsed = parse_json_value(
        r#"{"python":[{"version":"3.9.1"},{"version":"3.10.2"},{"version":"3.10.2"},{"version":"3.11.0rc1"},{"version":"3.12.0"}]}"#,
        "",
    )
    .unwrap();
    assert_eq!(python_versions_from(&parsed), vec!["3.12.0", "3.10.2", "3.9.1"]);
}

#[test]
fn python_upgrade_checks() {
    assert!(version_matches("3.12.4", "3.12"));
    assert!(version_matches("3.12.4", "3.12.4"));
    assert!(!version_matches("3.13.0", "3.12"));
    assert!(upgrade_python_args("base", "3.12", "conda-forge").is_ok());
    assert_eq!(
        clone_temp_file("/tmp", 42, "copy", false),
        "/tmp/wj-python-clone-42-copy.yml"
    );
}
