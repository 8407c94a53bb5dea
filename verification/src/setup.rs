//! First-run setup: installing Miniconda and making the first environment.
use vstd::prelude::*;
use crate::conda::{conda_python_of, home_of, push_lit, string_views};
use crate::domain::{opt_string_view, CondaEnvironment, EnvironmentTarget, OperationResult, SetupStatus};
use crate::path::{join_chars, join_path};
use crate::process::{failure, failure_of, parent_text, parent_text_exec, ProcessOutput};
use crate::text::{
    chars_of, concat, eq_ignore_case, eq_ignore_case_exec, is_ascii_digit, is_nonblank, join, join_exec,
    keep_filled, replace_all, replace_all_exec, strip_all_prefix, strip_all_prefix_exec, to_string, trim,
    trim_exec, views,
};
use crate::uv::{first_answer_line, first_answer_line_exec};

verus! {

/// Where Miniconda is installed by default: `D:\ProgramData\miniconda3` on
/// Windows, `<home>/miniconda3` elsewhere (`home` is `.` when unset).
pub open spec fn default_install_path_of(home: Option<Seq<char>>, windows: bool) -> Seq<char> {
    if windows {
        "D:\\ProgramData\\miniconda3"@
    } else {
        join_path(home_of(home), "miniconda3"@, false)
    }
}

pub fn default_install_path(home: Option<String>, windows: bool) -> (r: String)
    ensures
        r@ == default_install_path_of(opt_string_view(home), windows),
{
    if windows {
        "D:\\ProgramData\\miniconda3".to_owned()
    } else {
        let h = crate::conda::home_dir(home);
        to_string(&join_chars(&chars_of(h.as_str()), &chars_of("miniconda3"), false))
    }
}

/// A version that a tool printed: its first line that is not blank,
/// trimmed, with every leading `prefix` taken off.
pub open spec fn printed_version_of(stdout: Seq<char>, stderr: Seq<char>, prefix: Seq<char>) -> Option<Seq<char>> {
    match first_answer_line(stdout, stderr) {
        Some(l) => Some(strip_all_prefix(trim(l), prefix)),
        None => None,
    }
}

/// The version of Conda (`conda ` taken off) or of Python (`Python ` taken
/// off) from what `--version` printed.
pub fn printed_version(output: &ProcessOutput, prefix: &str) -> (r: Option<String>)
    ensures
        opt_string_view(r) == printed_version_of(output.stdout@, output.stderr@, prefix@),
{
    match first_answer_line_exec(output.stdout.as_str(), output.stderr.as_str()) {
        Some(l) => Some(to_string(&strip_all_prefix_exec(&trim_exec(&l), &chars_of(prefix)))),
        None => None,
    }
}

/// The root of a Conda install from the path of its `conda` program: the
/// folder above the program's folder.
pub open spec fn root_prefix_of(conda_path: Seq<char>, windows: bool) -> Option<Seq<char>> {
    match parent_text(conda_path, windows) {
        Some(p) => parent_text(p, windows),
        None => None,
    }
}

pub fn root_prefix(conda_path: &str, windows: bool) -> (r: Option<String>)
    ensures
        opt_string_view(r) == root_prefix_of(conda_path@, windows),
{
    match parent_text_exec(&chars_of(conda_path), windows) {
        Some(p) => match parent_text_exec(&p, windows) {
            Some(q) => Some(to_string(&q)),
            None => None,
        },
        None => None,
    }
}

/// The setup page: what was found of Conda, and the recommended install path.
pub fn setup_status(
    conda_path: Option<String>,
    environment_count: usize,
    recommended_install_path: String,
    platform_supported: bool,
    conda_version: Option<String>,
    base_python_version: Option<String>,
    root_prefix: Option<String>,
) -> (r: SetupStatus)
    ensures
        r.conda_available == (conda_path is Some),
        r.conda_path == conda_path,
        r.environment_count == (if conda_path is Some {
            environment_count
        } else {
            0
        }),
        r.recommended_install_path == recommended_install_path,
        r.platform_supported == platform_supported,
        r.conda_version == (if conda_path is Some {
            conda_version
        } else {
            None
        }),
        r.base_python_version == (if conda_path is Some {
            base_python_version
        } else {
            None
        }),
        r.root_prefix == (if conda_path is Some {
            root_prefix
        } else {
            None
        }),
{
    let found = conda_path.is_some();
    SetupStatus {
        conda_available: found,
        conda_path,
        recommended_install_path,
        environment_count: if found {
            environment_count
        } else {
            0
        },
        platform_supported,
        conda_version: if found {
            conda_version
        } else {
            None
        },
        base_python_version: if found {
            base_python_version
        } else {
            None
        },
        root_prefix: if found {
            root_prefix
        } else {
            None
        },
    }
}

/// The Miniconda installer's download address.
pub open spec fn miniconda_url() -> Seq<char> {
    "https://repo.anaconda.com/miniconda/Miniconda3-latest-Windows-x86_64.exe"@
}

/// The PowerShell script that downloads Miniconda and installs it silently
/// into `path` (its `'` doubled for the quoted string).
pub open spec fn miniconda_script_of(path: Seq<char>) -> Seq<char> {
    "$ErrorActionPreference='Stop'; $installer=Join-Path $env:TEMP 'WJ-Python-Miniconda3.exe'; Invoke-WebRequest -UseBasicParsing -Uri '"@
        + miniconda_url()
        + "' -OutFile $installer; $p=Start-Process -FilePath $installer -ArgumentList @('/InstallationType=JustMe','/RegisterPython=0','/AddToPath=0','/S','/D="@
        + replace_all(path, "'"@, "''"@)
        + "') -Wait -PassThru; Remove-Item $installer -Force; if ($p.ExitCode -ne 0) { exit $p.ExitCode }"@
}

/// The command that installs Miniconda; only on Windows.
pub fn miniconda_install_command(path: &str, windows: bool) -> (r: Result<(String, Vec<String>), String>)
    ensures
        !windows ==> crate::package::command_view(r) == Err::<(Seq<char>, Seq<Seq<char>>), Seq<char>>(
            "Miniconda 自动安装当前仅支持 Windows x64"@,
        ),
        windows ==> crate::package::command_view(r) == Ok::<(Seq<char>, Seq<Seq<char>>), Seq<char>>(
            (
                "powershell.exe"@,
                seq!["-NoProfile"@, "-ExecutionPolicy"@, "Bypass"@, "-Command"@, miniconda_script_of(path@)],
            ),
        ),
{
    if !windows {
        return Err("Miniconda 自动安装当前仅支持 Windows x64".to_owned());
    }
    let escaped = replace_all_exec(&chars_of(path), &chars_of("'"), &chars_of("''"));
    let head = concat(
        &concat(
            &chars_of(
                "$ErrorActionPreference='Stop'; $installer=Join-Path $env:TEMP 'WJ-Python-Miniconda3.exe'; Invoke-WebRequest -UseBasicParsing -Uri '",
            ),
            &chars_of("https://repo.anaconda.com/miniconda/Miniconda3-latest-Windows-x86_64.exe"),
        ),
        &chars_of(
            "' -OutFile $installer; $p=Start-Process -FilePath $installer -ArgumentList @('/InstallationType=JustMe','/RegisterPython=0','/AddToPath=0','/S','/D=",
        ),
    );
    let script = concat(
        &concat(&head, &escaped),
        &chars_of("') -Wait -PassThru; Remove-Item $installer -Force; if ($p.ExitCode -ne 0) { exit $p.ExitCode }"),
    );
    let mut args: Vec<String> = Vec::new();
    push_lit(&mut args, "-NoProfile");
    push_lit(&mut args, "-ExecutionPolicy");
    push_lit(&mut args, "Bypass");
    push_lit(&mut args, "-Command");
    let ghost before = string_views(args@);
    args.push(to_string(&script));
    assert(string_views(args@) =~= before.push(script@));
    assert(script@ =~= miniconda_script_of(path@));
    assert(string_views(args@) =~= seq!["-NoProfile"@, "-ExecutionPolicy"@, "Bypass"@, "-Command"@, miniconda_script_of(path@)]);
    Ok(("powershell.exe".to_owned(), args))
}

/// The result of the Miniconda installer's run.
pub fn miniconda_installed(output: ProcessOutput) -> (r: Result<OperationResult, String>)
    ensures
        !output.ok ==> (r matches Err(m) && m@ == failure_of(output.stdout@, output.stderr@, "Miniconda 安装失败"@)),
        output.ok ==> (r matches Ok(o) && o.ok && o.message@ == "Miniconda 安装完成"@ && o.command@
            == output.command@ && o.output@ == output.stdout@),
{
    if !output.ok {
        return Err(failure(&output, "Miniconda 安装失败"));
    }
    Ok(
        OperationResult {
            ok: true,
            message: "Miniconda 安装完成".to_owned(),
            command: output.command,
            output: output.stdout,
        },
    )
}

/// The `conda.exe` that a fresh Miniconda install brings.
pub fn bootstrap_conda_path(install_path: &str, windows: bool) -> (r: String)
    ensures
        r@ == join_path(join_path(install_path@, "Scripts"@, windows), "conda.exe"@, windows),
{
    to_string(&join_chars(&join_chars(&chars_of(install_path), &chars_of("Scripts"), windows), &chars_of("conda.exe"), windows))
}

/// The Python version of the first environment: `3.14` when none is given.
pub open spec fn initial_version_of(python_version: Seq<char>) -> Seq<char> {
    if trim(python_version).len() == 0 {
        "3.14"@
    } else {
        python_version
    }
}

pub fn initial_version(python_version: String) -> (r: String)
    ensures
        r@ == initial_version_of(python_version@),
{
    if trim_exec(&chars_of(python_version.as_str())).len() == 0 {
        "3.14".to_owned()
    } else {
        python_version
    }
}

/// The first environment's name: `py` and the digits of the version.
pub open spec fn initial_environment_name_of(version: Seq<char>) -> Seq<char> {
    "py"@ + version.filter(|c: char| is_ascii_digit(c))
}

pub fn initial_environment_name(version: &str) -> (r: String)
    ensures
        r@ == initial_environment_name_of(version@),
{
    let v = chars_of(version);
    let mut out = chars_of("py");
    let ghost head = out@;
    let mut i: usize = 0;
    assert(v@.take(0).filter(|c: char| is_ascii_digit(c)) =~= Seq::<char>::empty()) by {
        reveal(Seq::filter);
    }
    while i < v.len()
        invariant
            i <= v.len(),
            out@ == head + v@.take(i as int).filter(|c: char| is_ascii_digit(c)),
        decreases v.len() - i,
    {
        proof {
            assert(v@.take(i + 1) =~= v@.take(i as int).push(v@[i as int]));
            v@.take(i as int).lemma_filter_push(v@[i as int], |c: char| is_ascii_digit(c));
        }
        let c = v[i];
        if '0' <= c && c <= '9' {
            out.push(c);
        }
        i = i + 1;
    }
    assert(v@.take(v.len() as int) =~= v@);
    to_string(&out)
}

/// The Conda packages of the first environment: `ipykernel`, then the ones
/// asked for.
pub fn initial_packages(conda_packages: Vec<String>) -> (r: Vec<String>)
    ensures
        string_views(r@) == seq!["ipykernel"@] + string_views(conda_packages@),
{
    let mut out: Vec<String> = Vec::new();
    push_lit(&mut out, "ipykernel");
    let ghost head = string_views(out@);
    let mut i: usize = 0;
    while i < conda_packages.len()
        invariant
            i <= conda_packages.len(),
            string_views(out@) == head + string_views(conda_packages@).take(i as int),
        decreases conda_packages.len() - i,
    {
        let ghost before = string_views(out@);
        out.push(conda_packages[i].clone());
        assert(string_views(out@) =~= before.push(conda_packages@[i as int]@));
        i = i + 1;
        assert(string_views(conda_packages@).take(i as int) =~= string_views(conda_packages@).take(i - 1).push(
            conda_packages@[i - 1]@,
        ));
    }
    assert(string_views(conda_packages@).take(conda_packages.len() as int) =~= string_views(conda_packages@));
    out
}

/// The prefix of the environment created for the setup, found by name
/// (ASCII case aside) among the listed ones.
pub fn initial_environment_prefix(envs: &Vec<CondaEnvironment>, name: &str) -> (r: Result<String, String>)
    ensures
        match r {
            Ok(p) => exists|i: int|
                0 <= i < envs@.len() && eq_ignore_case(#[trigger] envs@[i].name@, name@) && envs@[i].prefix@ == p@
                    && forall|j: int| 0 <= j < i ==> !eq_ignore_case(#[trigger] envs@[j].name@, name@),
            Err(e) => (forall|j: int| 0 <= j < envs@.len() ==> !eq_ignore_case(#[trigger] envs@[j].name@, name@))
                && e@ == "创建完成但未找到 Conda 环境 "@ + name@ + " 的实际路径"@,
        },
{
    let n = chars_of(name);
    let mut i: usize = 0;
    while i < envs.len()
        invariant
            i <= envs.len(),
            n@ == name@,
            forall|j: int| 0 <= j < i ==> !eq_ignore_case(#[trigger] envs@[j].name@, name@),
        decreases envs.len() - i,
    {
        if eq_ignore_case_exec(&chars_of(envs[i].name.as_str()), &n) {
            return Ok(envs[i].prefix.clone());
        }
        i = i + 1;
    }
    Err(to_string(&concat(&concat(&chars_of("创建完成但未找到 Conda 环境 "), &n), &chars_of(" 的实际路径"))))
}

/// The pip packages to install, those that are not blank.
pub fn pip_install_list(pip_packages: Vec<String>) -> (r: Vec<String>)
    ensures
        string_views(r@) == string_views(pip_packages@).filter(is_nonblank()),
{
    let mut parts: Vec<Vec<char>> = Vec::new();
    let mut i: usize = 0;
    while i < pip_packages.len()
        invariant
            i <= pip_packages.len(),
            views(parts@) == string_views(pip_packages@).take(i as int),
        decreases pip_packages.len() - i,
    {
        let ghost before = views(parts@);
        parts.push(chars_of(pip_packages[i].as_str()));
        assert(views(parts@) =~= before.push(pip_packages@[i as int]@));
        i = i + 1;
        assert(string_views(pip_packages@).take(i as int) =~= string_views(pip_packages@).take(i - 1).push(
            pip_packages@[i - 1]@,
        ));
    }
    assert(string_views(pip_packages@).take(pip_packages.len() as int) =~= string_views(pip_packages@));
    let kept = keep_filled(parts, true);
    let mut out: Vec<String> = Vec::new();
    let mut j: usize = 0;
    while j < kept.len()
        invariant
            j <= kept.len(),
            string_views(out@) == views(kept@).take(j as int),
        decreases kept.len() - j,
    {
        let ghost before = string_views(out@);
        out.push(to_string(&kept[j]));
        assert(string_views(out@) =~= before.push(kept@[j as int]@));
        j = j + 1;
        assert(views(kept@).take(j as int) =~= views(kept@).take(j - 1).push(kept@[j - 1]@));
    }
    assert(views(kept@).take(kept.len() as int) =~= views(kept@));
    out
}

/// The target of the setup's pip installs: the new Conda environment.
pub fn initial_target(name: String, prefix: String) -> (r: EnvironmentTarget)
    ensures
        r.target_type@ == "conda"@ && r.name == Some(name) && r.path == Some(prefix) && r.manager is None,
{
    EnvironmentTarget { target_type: "conda".to_owned(), name: Some(name), path: Some(prefix), manager: None }
}

/// The result of the setup: the logs of its steps, a blank line between them.
pub fn initialized_result(name: &str, logs: &Vec<String>) -> (r: OperationResult)
    ensures
        r.ok && r.message@ == "初始化完成，环境 "@ + name@ + " 已就绪"@ && r.command@ == "conda + pip initialization"@
            && r.output@ == join(string_views(logs@), "\n\n"@),
{
    let mut parts: Vec<Vec<char>> = Vec::new();
    let mut i: usize = 0;
    while i < logs.len()
        invariant
            i <= logs.len(),
            views(parts@) == string_views(logs@).take(i as int),
        decreases logs.len() - i,
    {
        let ghost before = views(parts@);
        parts.push(chars_of(logs[i].as_str()));
        assert(views(parts@) =~= before.push(logs@[i as int]@));
        i = i + 1;
        assert(string_views(logs@).take(i as int) =~= string_views(logs@).take(i - 1).push(logs@[i - 1]@));
    }
    assert(string_views(logs@).take(logs.len() as int) =~= string_views(logs@));
    let message = concat(&concat(&chars_of("初始化完成，环境 "), &chars_of(name)), &chars_of(" 已就绪"));
    OperationResult {
        ok: true,
        message: to_string(&message),
        command: "conda + pip initialization".to_owned(),
        output: to_string(&join_exec(&parts, &chars_of("\n\n"))),
    }
}

} // verus!
