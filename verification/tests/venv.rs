use weipython::domain::VirtualEnvironment;
use weipython::process::ProcessOutput;
use weipython::venv::{
    create_command, default_directory, environment_at, freeze_args, is_registered, metadata_manager, metadata_text,
    program_to_find, registry_after_create, registry_path, removal_check, requirements_args, saved_roots,
    search_roots, sort_by_name, sort_dedup_paths, venv_created_result, venv_name_check, python_executable, venv_ran,
    venv_removed_result, venv_version,
};

fn output(ok: bool, stdout: &str, stderr: &str) -> ProcessOutput {
    ProcessOutput { ok, stdout: stdout.to_string(), stderr: stderr.to_string(), command: "python -m venv".to_string() }
}

fn env(name: &str) -> VirtualEnvironment {
    VirtualEnvironment {
        name: name.to_string(),
        path: format!("/v/{name}"),
        manager: "venv".to_string(),
        python_version: "3.12".to_string(),
    }
}

#[test]
fn virtual_environment_folders() {
    assert_eq!(default_directory(Some("/home/u".into()), false), "/home/u/venvs");
    assert_eq!(default_directory(None, false), "./venvs");
    assert_eq!(default_directory(Some("C:\\Users\\u".into()), true), "C:\\Users\\u\\venvs");
    assert_eq!(python_executable("/v/a", false), "/v/a/bin/python");
    assert_eq!(python_executable("C:\\v\\a", true), "C:\\v\\a\\Scripts\\python.exe");
    let (registry, temp) = registry_path(Some("/home/u".into()), false);
    assert_eq!(registry, "/home/u/.wj-python-venv-roots.json");
    assert_eq!(temp, "/home/u/.wj-python-venv-roots.json.tmp");
}

#[test]
fn paths_sort_by_components_and_repeat_once() {
    let sorted = sort_dedup_paths(
        vec!["/b".into(), "/a/".into(), "/a".into(), "/a//x".into(), "/a/x".into(), "rel".into(), "/a-b".into()],
        false,
    );
    assert_eq!(sorted, vec!["/a/", "/a//x", "/a-b", "/b", "rel"]);
}

#[test]
fn saved_and_searched_roots() {
    assert_eq!(saved_roots(Some(r#"["/x","/y"]"#.into())), vec!["/x", "/y"]);
    assert!(saved_roots(Some(r#"["/x",1]"#.into())).is_empty());
    assert!(saved_roots(Some("not json".into())).is_empty());
    assert!(saved_roots(None).is_empty());
    let roots = search_roots(Some("/h".into()), vec!["/p".into(), "/h/venvs".into()], Some("/h/envs/".into()), false);
    assert_eq!(roots, vec!["/h/Envs", "/h/envs", "/h/venvs", "/p"]);
}

#[test]
fn environment_metadata_and_versions() {
    assert_eq!(metadata_manager(&Some("{\"manager\":\"uv\"}".into())), "uv");
    assert_eq!(metadata_manager(&Some("{\"manager\":\"venv\"}".into())), "venv");
    assert_eq!(metadata_manager(&Some("{broken".into())), "venv");
    assert_eq!(metadata_manager(&None), "venv");
    assert_eq!(metadata_text(true), "{\"manager\":\"uv\"}");
    assert_eq!(metadata_text(false), "{\"manager\":\"venv\"}");
    assert_eq!(venv_version(&output(true, "Python 3.12.2", "")), "3.12.2");
    assert_eq!(venv_version(&output(false, "", "")), "未知");
    let found = environment_at("/v/proj/", &Some("{\"manager\":\"uv\"}".into()), "3.11".into(), false).unwrap();
    assert_eq!(found.name, "proj");
    assert_eq!(found.path, "/v/proj/");
    assert_eq!(found.manager, "uv");
    assert!(environment_at("/", &None, "3".into(), false).is_none());
}

#[test]
fn environments_are_listed_by_name() {
    let sorted = sort_by_name(vec![env("b"), env("a"), env("B")]);
    let names: Vec<String> = sorted.into_iter().map(|e| e.name).collect();
    assert_eq!(names, vec!["B", "a", "b"]);
}

#[test]
fn new_environment_names_are_checked() {
    assert!(venv_name_check("proj", "/v").is_ok());
    assert_eq!(venv_name_check(" ", "/v").err(), Some("环境名称和目标目录不能为空".to_string()));
    assert_eq!(venv_name_check("proj", "").err(), Some("环境名称和目标目录不能为空".to_string()));
    assert_eq!(venv_name_check("..", "/v").err(), Some("环境名称不能包含路径分隔符".to_string()));
    assert_eq!(venv_name_check("a:b", "/v").err(), Some("环境名称不能包含路径分隔符".to_string()));
}

#[test]
fn creation_commands() {
    assert_eq!(program_to_find(true, &None, false), Some("uv".to_string()));
    assert_eq!(program_to_find(false, &Some("/usr/bin/python3.12".into()), false), None);
    assert_eq!(program_to_find(false, &Some(" ".into()), false), Some("python3".to_string()));
    assert_eq!(program_to_find(false, &None, true), Some("python".to_string()));
    let (program, args) = create_command(true, "/v/p", Some("3.12".into()), Some("/bin/uv".into())).unwrap();
    assert_eq!(program, "/bin/uv");
    assert_eq!(args, vec!["venv", "--python", "3.12", "/v/p"]);
    let (program, args) = create_command(false, "/v/p", None, Some("/usr/bin/python3".into())).unwrap();
    assert_eq!(program, "/usr/bin/python3");
    assert_eq!(args, vec!["-m", "venv", "/v/p"]);
    assert_eq!(
        create_command(true, "/v/p", None, None).err(),
        Some("未检测到 uv。请切换为“Python venv”，或先安装 uv 后再选择 uv".to_string())
    );
    assert_eq!(
        create_command(false, "/v/p", None, None).err(),
        Some("未检测到 Python，请填写可执行文件的完整路径".to_string())
    );
    assert_eq!(venv_ran(&output(false, "", "")).err(), Some("创建虚拟环境失败".to_string()));
    let created = venv_created_result("proj", "uv venv".into(), "ok".into());
    assert_eq!(created.message, "虚拟环境 proj 创建完成");
}

#[test]
fn the_registry_is_written_sorted() {
    let text = registry_after_create(vec!["/z".into(), "/a".into()], Some("/a/".into()), false).unwrap();
    assert_eq!(text, r#"["/a","/z"]"#);
    let text = registry_after_create(vec![], Some("C:\\v\"q".into()), true).unwrap();
    assert_eq!(text, r#"["C:\\v\"q"]"#);
}

#[test]
fn uv_environment_dependencies() {
    assert_eq!(freeze_args("/v/bin/python"), vec!["pip", "freeze", "--python", "/v/bin/python"]);
    assert_eq!(
        requirements_args("/v/bin/python", "/r.txt"),
        vec!["pip", "install", "--python", "/v/bin/python", "--requirement", "/r.txt"]
    );
}

#[test]
fn only_known_environments_are_deleted() {
    assert!(is_registered("c:\\V\\P", &vec!["C:\\v\\p".to_string()]));
    assert!(!is_registered("/v/q", &vec!["/v/p".to_string()]));
    assert_eq!(removal_check(" ", true, true, true, true).err(), Some("缺少虚拟环境路径".to_string()));
    assert_eq!(removal_check("/v", false, true, true, true).err(), Some("虚拟环境不存在".to_string()));
    assert_eq!(removal_check("/v", true, false, true, true).err(), Some("该目录不是有效虚拟环境，拒绝删除".to_string()));
    assert_eq!(
        removal_check("/v", true, true, false, false).err(),
        Some("该虚拟环境未被本程序登记，拒绝删除；请先从已发现环境中选择".to_string())
    );
    assert!(removal_check("/v", true, true, false, true).is_ok());
    assert!(removal_check("/v", true, true, true, false).is_ok());
    let removed = venv_removed_result("/v".into());
    assert_eq!(removed.command, "filesystem.remove_dir_all");
    assert_eq!(removed.output, "/v");
}
