use weipython::process::{ProcessOutput, ProgramEnv};
use weipython::resolve::{resolve_step, ResolveAction, ResolveEvent, ResolveStage, SavedProgram};

fn env() -> ProgramEnv {
    ProgramEnv { conda_exe: None, conda_prefix: None, local_app_data: None, user_profile: None, home: None }
}

fn output(ok: bool, stdout: &str) -> ProcessOutput {
    ProcessOutput { ok, stdout: stdout.to_string(), stderr: String::new(), command: "lookup".to_string() }
}

fn checked(action: &ResolveAction) -> String {
    match action {
        ResolveAction::CheckFile(p) => p.clone(),
        _ => panic!("a file check was expected"),
    }
}

fn found(action: &ResolveAction) -> Option<String> {
    match action {
        ResolveAction::Found(p) => Some(p.clone()),
        _ => None,
    }
}

#[test]
fn a_program_is_looked_up_after_the_name_itself() {
    let e = env();
    let (stage, action) = resolve_step("python", &e, false, ResolveStage::Start, ResolveEvent::Begin);
    assert_eq!(checked(&action), "python");
    let (stage, action) = resolve_step("python", &e, false, stage, ResolveEvent::IsFile(false));
    match &action {
        ResolveAction::Run(program, args) => {
            assert_eq!(program, "which");
            assert_eq!(args, &vec!["python".to_string()]);
        },
        _ => panic!("the lookup should run"),
    }
    let (_, action) = resolve_step("python", &e, false, stage, ResolveEvent::Output(output(true, "\n  /usr/bin/python \n")));
    assert_eq!(found(&action), Some("/usr/bin/python".to_string()));
}

#[test]
fn the_saved_path_comes_first() {
    let e = env();
    let (stage, action) = resolve_step("UV", &e, false, ResolveStage::Start, ResolveEvent::Begin);
    assert!(matches!(action, ResolveAction::ReadSavedPath(SavedProgram::Uv)));
    let (stage, action) = resolve_step("UV", &e, false, stage, ResolveEvent::Saved(Some("/x/uv".into())));
    assert_eq!(checked(&action), "/x/uv");
    let (_, action) = resolve_step("UV", &e, false, stage, ResolveEvent::IsFile(true));
    assert_eq!(found(&action), Some("/x/uv".to_string()));
}

#[test]
fn a_blank_saved_conda_path_is_passed_over() {
    let e = env();
    let (stage, action) = resolve_step("conda", &e, false, ResolveStage::Start, ResolveEvent::Begin);
    assert!(matches!(action, ResolveAction::ReadSavedPath(SavedProgram::Conda)));
    let (_, action) = resolve_step("conda", &e, false, stage, ResolveEvent::Saved(Some("  ".into())));
    assert_eq!(checked(&action), "conda");
    let (stage, _) = resolve_step("uv", &e, false, ResolveStage::SavedPath, ResolveEvent::Saved(Some("  ".into())));
    assert!(matches!(stage, ResolveStage::SavedFile(_)));
}

#[test]
fn the_windows_launcher_skips_store_aliases() {
    let e = env();
    let out = "C:\\Users\\u\\AppData\\Local\\Microsoft\\WindowsApps\\python.exe\r\nC:\\Python312\\python.exe\r\n";
    let (stage, action) = resolve_step("python", &e, true, ResolveStage::LauncherRun, ResolveEvent::Output(output(true, out)));
    assert_eq!(checked(&action), "C:\\Users\\u\\AppData\\Local\\Microsoft\\WindowsApps\\python.exe");
    let (stage, action) = resolve_step("python", &e, true, stage, ResolveEvent::IsFile(true));
    assert_eq!(checked(&action), "C:\\Python312\\python.exe");
    let (stage, action) = resolve_step("python", &e, true, stage, ResolveEvent::IsFile(true));
    assert_eq!(found(&action), Some("C:\\Python312\\python.exe".to_string()));
    assert!(matches!(stage, ResolveStage::Done));
    let (_, action) =
        resolve_step("python", &e, true, ResolveStage::LauncherRun, ResolveEvent::Output(output(false, out)));
    assert!(matches!(action, ResolveAction::NotFound));
}

#[test]
fn nothing_found_ends_the_search() {
    let e = env();
    let (_, action) = resolve_step("git", &e, false, ResolveStage::Lookup, ResolveEvent::Output(output(true, "")));
    assert!(matches!(action, ResolveAction::NotFound));
    let (_, action) = resolve_step("git", &e, false, ResolveStage::Direct, ResolveEvent::Begin);
    assert!(matches!(action, ResolveAction::NotFound));
}
