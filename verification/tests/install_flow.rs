use weipython::install_flow::{
    uv_install_step, venv_create_step, UvInstallStage, VenvCreateStage, VenvRequest, WorkAction, WorkEvent,
};
use weipython::process::ProcessOutput;

fn out(ok: bool, stdout: &str, stderr: &str) -> ProcessOutput {
    ProcessOutput { ok, stdout: stdout.into(), stderr: stderr.into(), command: "installer".into() }
}

fn error_of(action: WorkAction) -> String {
    match action {
        WorkAction::Finish(Err(e)) => e,
        _ => panic!("an error was expected"),
    }
}

#[test]
fn uv_is_installed_checked_and_saved() {
    let version = Some("0.5.1".to_string());
    let dir = None;
    let (s, a) = uv_install_step(&version, &dir, false, UvInstallStage::Start, WorkEvent::Begin);
    assert!(matches!(a, WorkAction::FindDefaultFolder));
    let (s, a) = uv_install_step(&version, &dir, false, s, WorkEvent::Folder("/home/u/.local/bin".into()));
    match &a {
        WorkAction::Run(program, _, env) => {
            assert_eq!(program, "sh");
            assert_eq!(env[0], ("UV_INSTALL_DIR".to_string(), "/home/u/.local/bin".to_string()));
            assert_eq!(env[1], ("UV_NO_MODIFY_PATH".to_string(), "1".to_string()));
        },
        _ => panic!("the installer should run"),
    }
    let (s, a) = uv_install_step(&version, &dir, false, s, WorkEvent::Ran(out(true, "installed", "")));
    match &a {
        WorkAction::Run(program, args, env) => {
            assert_eq!(program, "/home/u/.local/bin/uv");
            assert_eq!(args, &vec!["--version".to_string()]);
            assert!(env.is_empty());
        },
        _ => panic!("the installed uv should be checked"),
    }
    let (s, a) = uv_install_step(&version, &dir, false, s, WorkEvent::Ran(out(true, "uv 0.5.1 (abc)", "")));
    assert!(matches!(a, WorkAction::SaveUvPath(ref p) if p == "/home/u/.local/bin/uv"));
    let (_, a) = uv_install_step(&version, &dir, false, s, WorkEvent::Finished(Ok(())));
    match a {
        WorkAction::Finish(Ok(r)) => {
            assert_eq!(r.message, "uv 版本 0.5.1 安装完成：/home/u/.local/bin/uv");
            assert_eq!(r.output, "installed");
        },
        _ => panic!("the install should be done"),
    }
}

#[test]
fn uv_install_failures_end_it() {
    let (_, a) = uv_install_step(&None, &Some("relative/dir".into()), false, UvInstallStage::FindingDefault, WorkEvent::Folder("/d".into()));
    assert_eq!(error_of(a), "安装目录必须是绝对路径");
    let stage = UvInstallStage::Installing { version: None, directory: "/d".into() };
    let (_, a) = uv_install_step(&None, &None, false, stage, WorkEvent::Ran(out(false, "", "")));
    assert_eq!(error_of(a), "uv 安装失败，请检查网络连接或手动安装 uv");
    let stage = UvInstallStage::Saving { version: None, installed: "/d/uv".into(), result: out(true, "", "") };
    let (_, a) = uv_install_step(&None, &None, false, stage, WorkEvent::Finished(Err("disk full".into())));
    assert_eq!(error_of(a), "disk full");
}

fn request(manager: Option<&str>, python: Option<&str>) -> VenvRequest {
    VenvRequest {
        name: "proj".into(),
        target_path: "/envs".into(),
        python_path: python.map(Into::into),
        manager: manager.map(Into::into),
    }
}

#[test]
fn a_venv_is_created_written_and_registered() {
    let q = request(Some("uv"), None);
    let (s, a) = venv_create_step(&q, false, VenvCreateStage::Start, WorkEvent::Begin);
    assert!(matches!(a, WorkAction::MakeFolder(ref p) if p == "/envs"));
    let (s, a) = venv_create_step(&q, false, s, WorkEvent::Finished(Ok(())));
    assert!(matches!(a, WorkAction::CheckExists(ref p) if p == "/envs/proj"));
    let (s, a) = venv_create_step(&q, false, s, WorkEvent::Exists(false));
    assert!(matches!(a, WorkAction::FindProgram(ref p) if p == "uv"));
    let (s, a) = venv_create_step(&q, false, s, WorkEvent::Found(Some("/bin/uv".into())));
    match &a {
        WorkAction::Run(program, args, _) => {
            assert_eq!(program, "/bin/uv");
            assert_eq!(args, &vec!["venv".to_string(), "/envs/proj".to_string()]);
        },
        _ => panic!("uv should run"),
    }
    let (s, a) = venv_create_step(&q, false, s, WorkEvent::Ran(out(true, "made", "")));
    assert!(matches!(a, WorkAction::WriteFile(ref p, ref t) if p == "/envs/proj/.weipython-env.json" && t == "{\"manager\":\"uv\"}"));
    let (s, a) = venv_create_step(&q, false, s, WorkEvent::Finished(Ok(())));
    assert!(matches!(a, WorkAction::Register(Some(ref p)) if p == "/envs"));
    let (_, a) = venv_create_step(&q, false, s, WorkEvent::Finished(Ok(())));
    match a {
        WorkAction::Finish(Ok(r)) => {
            assert_eq!(r.message, "虚拟环境 proj 创建完成");
            assert_eq!(r.output, "made");
        },
        _ => panic!("the creation should be done"),
    }
}

#[test]
fn a_failed_venv_step_cleans_up() {
    let q = request(None, Some("/usr/bin/python3"));
    let (_, a) = venv_create_step(&request(None, None), false, VenvCreateStage::Start, WorkEvent::Begin);
    assert!(matches!(a, WorkAction::MakeFolder(_)));
    let (_, a) = venv_create_step(&q, false, VenvCreateStage::MakingFolder, WorkEvent::Finished(Err("denied".into())));
    assert_eq!(error_of(a), "创建目标目录失败: denied");
    let (_, a) = venv_create_step(&q, false, VenvCreateStage::CheckingExists { path: "/envs/proj".into() }, WorkEvent::Exists(true));
    assert_eq!(error_of(a), "目标目录已存在，请选择新的环境名称");
    let (_, a) = venv_create_step(&q, false, VenvCreateStage::CheckingExists { path: "/envs/proj".into() }, WorkEvent::Exists(false));
    assert!(matches!(a, WorkAction::Run(ref p, _, _) if p == "/usr/bin/python3"));
    let stage = VenvCreateStage::WritingMetadata { path: "/envs/proj".into(), result: out(true, "", "") };
    let (_, a) = venv_create_step(&q, false, stage, WorkEvent::Finished(Err("no space".into())));
    match a {
        WorkAction::CleanUp { path, temporary, error } => {
            assert_eq!(path, "/envs/proj");
            assert!(!temporary);
            assert_eq!(error, "写入环境元数据失败，已清理创建的环境: no space");
        },
        _ => panic!("the environment should be removed"),
    }
    let stage = VenvCreateStage::Registering { path: "/envs/proj".into(), result: out(true, "", "") };
    let (_, a) = venv_create_step(&q, false, stage, WorkEvent::Finished(Err("locked".into())));
    assert!(matches!(a, WorkAction::CleanUp { temporary: true, .. }));
    let (_, a) = venv_create_step(&request(None, None), false, VenvCreateStage::Start, WorkEvent::Exists(true));
    assert!(matches!(a, WorkAction::Stop));
    let mut bad = request(None, None);
    bad.name = "a/b".into();
    let (_, a) = venv_create_step(&bad, false, VenvCreateStage::Start, WorkEvent::Begin);
    assert_eq!(error_of(a), "环境名称不能包含路径分隔符");
}
