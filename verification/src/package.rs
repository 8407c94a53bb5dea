//! Packages of an environment: what pip is asked to do, and what its answers mean.
use vstd::prelude::*;
use crate::conda::{conda_python_of, push_lit, python_executable, string_views, two, two_outputs, join_filled};
use crate::domain::{opt_string_view, EnvironmentTarget, OperationResult, Package};
use crate::process::{failure, failure_of, ProcessOutput};
use crate::text::{
    chars_of, concat, contains, contains_exec, eq, lower, lower_exec, slice, starts_with,
    starts_with_exec, to_string, trim, trim_exec,
};
use crate::venv::venv_python_of;

verus! {

/// Is `v` the text `s`?
pub(crate) fn is_text(v: &Vec<char>, s: &str) -> (r: bool)
    ensures
        r == (v@ == s@),
{
    eq(v, &chars_of(s))
}

/// The extras of `wei-data-shu` that a short spelling can name.
pub open spec fn wds_extra(e: Seq<char>) -> Option<Seq<char>> {
    if e == "excel"@ {
        Some("excel"@)
    } else if e == "database"@ {
        Some("database"@)
    } else if e == "analysis"@ {
        Some("analysis"@)
    } else if e == "excel_client"@ || e == "excel-client"@ {
        Some("excel-client"@)
    } else {
        None
    }
}

pub open spec fn with_extra(trimmed: Seq<char>, rest: Seq<char>) -> Seq<char> {
    match wds_extra(rest) {
        Some(e) => "wei-data-shu["@ + e + "]"@,
        None => trimmed,
    }
}

/// A package spec as pip is given it: trimmed, and `wei_data_shu.<extra>` or
/// `wei-data-shu.<extra>` (any case) written `wei-data-shu[<extra>]` when the
/// extra is a known one.
pub open spec fn normalized_spec(package: Seq<char>) -> Seq<char> {
    let t = trim(package);
    let l = lower(t);
    if starts_with(l, "wei_data_shu."@) {
        with_extra(t, l.skip("wei_data_shu."@.len() as int))
    } else if starts_with(l, "wei-data-shu."@) {
        with_extra(t, l.skip("wei-data-shu."@.len() as int))
    } else {
        t
    }
}

fn with_extra_exec(trimmed: Vec<char>, rest: &Vec<char>) -> (r: Vec<char>)
    ensures
        r@ == with_extra(trimmed@, rest@),
{
    let extra = if is_text(rest, "excel") {
        "excel"
    } else if is_text(rest, "database") {
        "database"
    } else if is_text(rest, "analysis") {
        "analysis"
    } else if is_text(rest, "excel_client") || is_text(rest, "excel-client") {
        "excel-client"
    } else {
        return trimmed;
    };
    concat(&concat(&chars_of("wei-data-shu["), &chars_of(extra)), &chars_of("]"))
}

pub fn normalize_package_spec(package: &str) -> (r: String)
    ensures
        r@ == normalized_spec(package@),
{
    let t = trim_exec(&chars_of(package));
    let l = lower_exec(&t);
    let a = chars_of("wei_data_shu.");
    let b = chars_of("wei-data-shu.");
    if starts_with_exec(&l, &a) {
        let rest = slice(&l, a.len(), l.len());
        assert(rest@ == l@.skip(a@.len() as int));
        to_string(&with_extra_exec(t, &rest))
    } else if starts_with_exec(&l, &b) {
        let rest = slice(&l, b.len(), l.len());
        assert(rest@ == l@.skip(b@.len() as int));
        to_string(&with_extra_exec(t, &rest))
    } else {
        to_string(&t)
    }
}

/// The interpreter of the target environment: `Scripts\python.exe` of a venv
/// on Windows, the prefix's interpreter otherwise. A blank or absent path is
/// refused.
pub open spec fn target_python_of(target_type: Seq<char>, path: Option<Seq<char>>, windows: bool) -> Result<
    Seq<char>,
    Seq<char>,
> {
    match path {
        Some(p) => if trim(p).len() > 0 {
            if windows && target_type == "venv"@ {
                Ok(venv_python_of(p, true))
            } else {
                Ok(conda_python_of(p, windows))
            }
        } else {
            Err("缺少目标环境路径"@)
        },
        None => Err("缺少目标环境路径"@),
    }
}

pub open spec fn string_result(r: Result<String, String>) -> Result<Seq<char>, Seq<char>> {
    match r {
        Ok(s) => Ok(s@),
        Err(e) => Err(e@),
    }
}

pub fn target_path(target: &EnvironmentTarget, windows: bool) -> (r: Result<String, String>)
    ensures
        string_result(r) == target_python_of(target.target_type@, opt_string_view(target.path), windows),
{
    match &target.path {
        Some(p) => {
            if trim_exec(&chars_of(p.as_str())).len() == 0 {
                return Err("缺少目标环境路径".to_owned());
            }
            if windows && is_text(&chars_of(target.target_type.as_str()), "venv") {
                Ok(crate::venv::python_executable(p.as_str(), true))
            } else {
                Ok(python_executable(p.as_str(), windows))
            }
        },
        None => Err("缺少目标环境路径".to_owned()),
    }
}

/// Does the target use uv's pip?
pub open spec fn uses_uv(manager: Option<Seq<char>>) -> bool {
    manager == Some("uv"@)
}

/// Is the manager named `uv`?
pub fn is_uv_manager(manager: &Option<String>) -> (r: bool)
    ensures
        r == uses_uv(opt_string_view(*manager)),
{
    match manager {
        Some(m) => is_text(&chars_of(m.as_str()), "uv"),
        None => false,
    }
}

pub fn manages_with_uv(target: &EnvironmentTarget) -> (r: bool)
    ensures
        r == uses_uv(opt_string_view(target.manager)),
{
    is_uv_manager(&target.manager)
}

/// The arguments of a pip run: `uv pip <args> --python <interpreter>` or
/// `<interpreter> -m pip <args>`.
pub open spec fn pip_args_of(python: Seq<char>, uv: bool, args: Seq<Seq<char>>) -> Seq<Seq<char>> {
    if uv {
        seq!["pip"@] + args + seq!["--python"@, python]
    } else {
        seq!["-m"@, "pip"@] + args
    }
}

/// The program and arguments that run pip on a target; `uv_program` is where
/// uv was found, if it was.
pub open spec fn pip_command_of(
    target_type: Seq<char>,
    path: Option<Seq<char>>,
    manager: Option<Seq<char>>,
    args: Seq<Seq<char>>,
    uv_program: Option<Seq<char>>,
    windows: bool,
) -> Result<(Seq<char>, Seq<Seq<char>>), Seq<char>> {
    match target_python_of(target_type, path, windows) {
        Err(e) => Err(e),
        Ok(python) => if uses_uv(manager) {
            match uv_program {
                Some(uv) => Ok((uv, pip_args_of(python, true, args))),
                None => Err("未检测到 uv，请先安装或在设置中配置 uv 路径"@),
            }
        } else {
            Ok((python, pip_args_of(python, false, args)))
        },
    }
}

pub open spec fn command_view(r: Result<(String, Vec<String>), String>) -> Result<
    (Seq<char>, Seq<Seq<char>>),
    Seq<char>,
> {
    match r {
        Ok((p, a)) => Ok((p@, string_views(a@))),
        Err(e) => Err(e@),
    }
}

fn append_strings(a: &mut Vec<String>, b: Vec<String>)
    ensures
        string_views(final(a)@) == string_views(old(a)@) + string_views(b@),
{
    let ghost start = string_views(a@);
    let mut i: usize = 0;
    while i < b.len()
        invariant
            i <= b.len(),
            string_views(a@) == start + string_views(b@).subrange(0, i as int),
        decreases b.len() - i,
    {
        let ghost before = string_views(a@);
        a.push(b[i].clone());
        assert(string_views(a@) =~= before.push(b@[i as int]@));
        i = i + 1;
        assert(string_views(a@) =~= start + string_views(b@).subrange(0, i as int));
    }
    assert(string_views(b@).subrange(0, b.len() as int) =~= string_views(b@));
}

pub fn pip_command(
    target: &EnvironmentTarget,
    args: Vec<String>,
    uv_program: Option<String>,
    windows: bool,
) -> (r: Result<(String, Vec<String>), String>)
    ensures
        command_view(r) == pip_command_of(
            target.target_type@,
            opt_string_view(target.path),
            opt_string_view(target.manager),
            string_views(args@),
            opt_string_view(uv_program),
            windows,
        ),
{
    let python = match target_path(target, windows) {
        Ok(p) => p,
        Err(e) => return Err(e),
    };
    if manages_with_uv(target) {
        let uv = match uv_program {
            Some(u) => u,
            None => return Err("未检测到 uv，请先安装或在设置中配置 uv 路径".to_owned()),
        };
        let mut out: Vec<String> = Vec::new();
        push_lit(&mut out, "pip");
        append_strings(&mut out, args);
        push_lit(&mut out, "--python");
        let ghost before = string_views(out@);
        out.push(python);
        assert(string_views(out@) =~= before.push(python@));
        assert(string_views(out@) =~= pip_args_of(python@, true, string_views(args@)));
        Ok((uv, out))
    } else {
        let mut out: Vec<String> = Vec::new();
        push_lit(&mut out, "-m");
        push_lit(&mut out, "pip");
        append_strings(&mut out, args);
        assert(string_views(out@) =~= pip_args_of(python@, false, string_views(args@)));
        Ok((python, out))
    }
}

/// pip itself is missing from the environment.
pub open spec fn pip_missing(ok: bool, stderr: Seq<char>) -> bool {
    !ok && contains(stderr, "No module named pip"@)
}

/// A pip run whose environment has no pip is turned into an error; any other
/// run is handed back as it is.
pub fn pip_checked(output: ProcessOutput) -> (r: Result<ProcessOutput, String>)
    ensures
        pip_missing(output.ok, output.stderr@) ==> r is Err && r->Err_0@
            == "目标环境未安装 pip，请先执行 python -m ensurepip 或重新创建环境"@,
        !pip_missing(output.ok, output.stderr@) ==> r == Ok::<ProcessOutput, String>(output),
{
    if !output.ok && contains_exec(&chars_of(output.stderr.as_str()), &chars_of("No module named pip")) {
        Err("目标环境未安装 pip，请先执行 python -m ensurepip 或重新创建环境".to_owned())
    } else {
        Ok(output)
    }
}

/// The result of a pip run: its own success, command, and its non-empty
/// stdout and stderr one per line.
pub fn output(result: ProcessOutput, message: &str) -> (r: OperationResult)
    ensures
        r.ok == result.ok,
        r.message@ == message@,
        r.command@ == result.command@,
        r.output@ == two_outputs(result.stdout@, result.stderr@),
{
    let text = join_filled(two(result.stdout, result.stderr), "\n", false);
    OperationResult { ok: result.ok, message: message.to_owned(), command: result.command, output: text }
}

pub open spec fn package_views(v: Seq<Package>) -> Seq<(Seq<char>, Seq<char>)> {
    v.map_values(|p: Package| (p.name@, p.version@))
}

pub open spec fn packages_result(r: Result<Vec<Package>, String>) -> Result<Seq<(Seq<char>, Seq<char>)>, Seq<char>> {
    match r {
        Ok(ps) => Ok(package_views(ps@)),
        Err(e) => Err(e@),
    }
}

/// The installed packages from a run of `pip list --format=json`, given
/// what its stdout read as a list of packages (`parsed`, the packages or the
/// reader's error): a failed run is an error of its own, whatever `parsed`.
pub open spec fn installed_packages_of(
    ok: bool,
    stdout: Seq<char>,
    stderr: Seq<char>,
    parsed: Result<Seq<(Seq<char>, Seq<char>)>, Seq<char>>,
) -> Result<Seq<(Seq<char>, Seq<char>)>, Seq<char>> {
    if !ok {
        Err(failure_of(stdout, stderr, "读取已安装包失败"@))
    } else {
        match parsed {
            Err(e) => Err("解析 pip 包列表失败: "@ + e),
            Ok(ps) => Ok(ps),
        }
    }
}

/// The arguments of `pip list --format=json`.
pub fn list_args() -> (r: Vec<String>)
    ensures
        string_views(r@) == seq!["list"@, "--format=json"@],
{
    let mut v: Vec<String> = Vec::new();
    push_lit(&mut v, "list");
    push_lit(&mut v, "--format=json");
    v
}

/// The installed packages from the answer of `pip list --format=json` and
/// what its stdout read as (`parsed`).
pub fn installed_packages(output: &ProcessOutput, parsed: Result<Vec<Package>, String>) -> (r: Result<
    Vec<Package>,
    String,
>)
    ensures
        packages_result(r) == installed_packages_of(
            output.ok,
            output.stdout@,
            output.stderr@,
            packages_result(parsed),
        ),
{
    if !output.ok {
        return Err(failure(output, "读取已安装包失败"));
    }
    match parsed {
        Err(e) => Err(to_string(&concat(&chars_of("解析 pip 包列表失败: "), &chars_of(e.as_str())))),
        Ok(ps) => Ok(ps),
    }
}

/// `Some` of a text that is not blank.
pub open spec fn nonblank(o: Option<Seq<char>>) -> Option<Seq<char>> {
    match o {
        Some(s) => if trim(s).len() > 0 {
            Some(s)
        } else {
            None
        },
        None => None,
    }
}

/// `Some` of a text that is not empty.
pub open spec fn nonempty(o: Option<Seq<char>>) -> Option<Seq<char>> {
    match o {
        Some(s) => if s.len() > 0 {
            Some(s)
        } else {
            None
        },
        None => None,
    }
}

fn nonblank_exec(o: &Option<String>) -> (r: Option<String>)
    ensures
        opt_string_view(r) == nonblank(opt_string_view(*o)),
{
    match o {
        Some(s) => if trim_exec(&chars_of(s.as_str())).len() > 0 {
            Some(s.clone())
        } else {
            None
        },
        None => None,
    }
}

/// `--index-url <index>` when an index is given and not blank.
pub open spec fn index_args_of(index: Option<Seq<char>>) -> Seq<Seq<char>> {
    match nonblank(index) {
        Some(i) => seq!["--index-url"@, i],
        None => seq![],
    }
}

fn push_index_args(args: &mut Vec<String>, index: &Option<String>)
    ensures
        string_views(final(args)@) == string_views(old(args)@) + index_args_of(opt_string_view(*index)),
{
    let ghost before = string_views(args@);
    match nonblank_exec(index) {
        Some(i) => {
            push_lit(args, "--index-url");
            let ghost mid = string_views(args@);
            args.push(i);
            assert(string_views(args@) =~= mid.push(i@));
            assert(string_views(args@) =~= before + index_args_of(opt_string_view(*index)));
        },
        None => {
            assert(string_views(args@) =~= before + index_args_of(opt_string_view(*index)));
        },
    }
}

/// The arguments of `pip list --outdated --format=json`, with the index if
/// one is given.
pub fn outdated_args(index_url: &Option<String>) -> (r: Vec<String>)
    ensures
        string_views(r@) == seq!["list"@, "--outdated"@, "--format=json"@] + index_args_of(
            opt_string_view(*index_url),
        ),
{
    let mut v: Vec<String> = Vec::new();
    push_lit(&mut v, "list");
    push_lit(&mut v, "--outdated");
    push_lit(&mut v, "--format=json");
    push_index_args(&mut v, index_url);
    v
}

pub open spec fn strings_result(r: Result<Vec<String>, String>) -> Result<Seq<Seq<char>>, Seq<char>> {
    match r {
        Ok(v) => Ok(string_views(v@)),
        Err(e) => Err(e@),
    }
}

/// The names of the packages that can be upgraded, from a run of
/// `pip list --outdated --format=json`, given the names its stdout read as
/// (`parsed`, the names or the reader's error).
pub open spec fn outdated_of(
    ok: bool,
    stdout: Seq<char>,
    stderr: Seq<char>,
    parsed: Result<Seq<Seq<char>>, Seq<char>>,
) -> Result<Seq<Seq<char>>, Seq<char>> {
    if !ok {
        Err(failure_of(stdout, stderr, "读取可升级包失败"@))
    } else {
        match parsed {
            Err(e) => Err("解析可升级包列表失败: "@ + e),
            Ok(ns) => Ok(ns),
        }
    }
}

/// The names of the packages that can be upgraded, from pip's answer and
/// the names its stdout read as (`parsed`).
pub fn outdated_names(output: &ProcessOutput, parsed: Result<Vec<String>, String>) -> (r: Result<
    Vec<String>,
    String,
>)
    ensures
        strings_result(r) == outdated_of(output.ok, output.stdout@, output.stderr@, strings_result(parsed)),
{
    if !output.ok {
        return Err(failure(output, "读取可升级包失败"));
    }
    match parsed {
        Err(e) => Err(to_string(&concat(&chars_of("解析可升级包列表失败: "), &chars_of(e.as_str())))),
        Ok(ns) => Ok(ns),
    }
}

/// The pip arguments that an action starts with.
pub open spec fn action_args_of(action: Seq<char>, uv: bool, requirements: Option<Seq<char>>) -> Result<
    Seq<Seq<char>>,
    Seq<char>,
> {
    if action == "install"@ {
        Ok(seq!["install"@])
    } else if action == "upgrade"@ {
        Ok(seq!["install"@, "--upgrade"@])
    } else if action == "uninstall"@ {
        Ok(if uv {
            seq!["uninstall"@]
        } else {
            seq!["uninstall"@, "-y"@]
        })
    } else if action == "show"@ {
        Ok(seq!["show"@])
    } else if action == "latest"@ {
        Ok(seq!["index"@, "versions"@])
    } else if action == "upgrade-pip"@ {
        Ok(seq!["install"@, "--upgrade"@, "pip"@])
    } else if action == "upgrade-all"@ {
        Ok(seq!["install"@, "--upgrade"@])
    } else if action == "requirements"@ {
        match requirements {
            Some(r) => Ok(seq!["install"@, "-r"@, r]),
            None => Err("缺少 requirements 文件路径"@),
        }
    } else {
        Err("不支持的包操作: "@ + action)
    }
}

/// A download index, when one is given, must be an http(s) URL.
pub open spec fn index_scheme_ok(index: Option<Seq<char>>) -> bool {
    match nonempty(index) {
        Some(i) => starts_with(i, "https://"@) || starts_with(i, "http://"@),
        None => true,
    }
}

/// What a package action runs.
pub enum PackagePlan {
    /// pip with these arguments.
    Run(Vec<String>),
    /// First ask pip which packages are outdated; then run pip with these
    /// arguments followed by their names.
    UpgradeAll(Vec<String>),
}

pub enum PackagePlanView {
    Run(Seq<Seq<char>>),
    UpgradeAll(Seq<Seq<char>>),
}

pub open spec fn plan_view(r: Result<PackagePlan, String>) -> Result<PackagePlanView, Seq<char>> {
    match r {
        Ok(PackagePlan::Run(a)) => Ok(PackagePlanView::Run(string_views(a@))),
        Ok(PackagePlan::UpgradeAll(a)) => Ok(PackagePlanView::UpgradeAll(string_views(a@))),
        Err(e) => Err(e@),
    }
}

/// The package an action names, normalised for install and upgrade.
pub open spec fn named_package(action: Seq<char>, package: Seq<char>) -> Seq<char> {
    if action == "install"@ || action == "upgrade"@ {
        normalized_spec(package)
    } else {
        package
    }
}

/// The plan of a package action. The index is checked first, then the
/// action; every action but `upgrade-pip`, `requirements` and `upgrade-all`
/// needs a package name that is not blank.
pub open spec fn package_plan_of(
    action: Seq<char>,
    uv: bool,
    package: Option<Seq<char>>,
    index: Option<Seq<char>>,
    requirements: Option<Seq<char>>,
) -> Result<PackagePlanView, Seq<char>> {
    if !index_scheme_ok(index) {
        Err("下载源必须使用 http:// 或 https://"@)
    } else {
        match action_args_of(action, uv, requirements) {
            Err(e) => Err(e),
            Ok(a) => {
                let base = if action == "uninstall"@ || action == "show"@ {
                    a
                } else {
                    a + index_args_of(index)
                };
                if action == "upgrade-all"@ {
                    Ok(PackagePlanView::UpgradeAll(base))
                } else if action == "upgrade-pip"@ || action == "requirements"@ {
                    Ok(PackagePlanView::Run(base))
                } else {
                    match nonblank(package) {
                        None => Err("缺少包名"@),
                        Some(p) => Ok(PackagePlanView::Run(base.push(named_package(action, p)))),
                    }
                }
            },
        }
    }
}

fn action_args(action: &Vec<char>, uv: bool, requirements: Option<String>) -> (r: Result<Vec<String>, String>)
    ensures
        strings_result(r) == action_args_of(action@, uv, opt_string_view(requirements)),
{
    let mut v: Vec<String> = Vec::new();
    if is_text(action, "install") {
        push_lit(&mut v, "install");
        assert(string_views(v@) =~= seq!["install"@]);
    } else if is_text(action, "upgrade") {
        push_lit(&mut v, "install");
        push_lit(&mut v, "--upgrade");
        assert(string_views(v@) =~= seq!["install"@, "--upgrade"@]);
    } else if is_text(action, "uninstall") {
        push_lit(&mut v, "uninstall");
        if !uv {
            push_lit(&mut v, "-y");
            assert(string_views(v@) =~= seq!["uninstall"@, "-y"@]);
        } else {
            assert(string_views(v@) =~= seq!["uninstall"@]);
        }
    } else if is_text(action, "show") {
        push_lit(&mut v, "show");
        assert(string_views(v@) =~= seq!["show"@]);
    } else if is_text(action, "latest") {
        push_lit(&mut v, "index");
        push_lit(&mut v, "versions");
        assert(string_views(v@) =~= seq!["index"@, "versions"@]);
    } else if is_text(action, "upgrade-pip") {
        push_lit(&mut v, "install");
        push_lit(&mut v, "--upgrade");
        push_lit(&mut v, "pip");
        assert(string_views(v@) =~= seq!["install"@, "--upgrade"@, "pip"@]);
    } else if is_text(action, "upgrade-all") {
        push_lit(&mut v, "install");
        push_lit(&mut v, "--upgrade");
        assert(string_views(v@) =~= seq!["install"@, "--upgrade"@]);
    } else if is_text(action, "requirements") {
        match &requirements {
            Some(r) => {
                push_lit(&mut v, "install");
                push_lit(&mut v, "-r");
                let ghost before = string_views(v@);
                assert(before =~= seq!["install"@, "-r"@]);
                v.push(r.clone());
                assert(string_views(v@) =~= before.push(r@));
                assert(string_views(v@) =~= seq!["install"@, "-r"@, r@]);
            },
            None => return Err("缺少 requirements 文件路径".to_owned()),
        }
    } else {
        return Err(to_string(&concat(&chars_of("不支持的包操作: "), action)));
    }
    Ok(v)
}

fn index_scheme_ok_exec(index: &Option<String>) -> (r: bool)
    ensures
        r == index_scheme_ok(opt_string_view(*index)),
{
    match index {
        Some(i) => {
            let c = chars_of(i.as_str());
            c.len() == 0 || starts_with_exec(&c, &chars_of("https://")) || starts_with_exec(
                &c,
                &chars_of("http://"),
            )
        },
        None => true,
    }
}

/// The plan of a package action on a target.
pub fn package_plan(
    target: &EnvironmentTarget,
    action: &str,
    package_name: Option<String>,
    index_url: Option<String>,
    requirements_path: Option<String>,
) -> (r: Result<PackagePlan, String>)
    ensures
        plan_view(r) == package_plan_of(
            action@,
            uses_uv(opt_string_view(target.manager)),
            opt_string_view(package_name),
            opt_string_view(index_url),
            opt_string_view(requirements_path),
        ),
{
    if !index_scheme_ok_exec(&index_url) {
        return Err("下载源必须使用 http:// 或 https://".to_owned());
    }
    let a = chars_of(action);
    let uv = manages_with_uv(target);
    let mut args = match action_args(&a, uv, requirements_path) {
        Ok(v) => v,
        Err(e) => return Err(e),
    };
    if !is_text(&a, "uninstall") && !is_text(&a, "show") {
        push_index_args(&mut args, &index_url);
    }
    if is_text(&a, "upgrade-all") {
        return Ok(PackagePlan::UpgradeAll(args));
    }
    if is_text(&a, "upgrade-pip") || is_text(&a, "requirements") {
        return Ok(PackagePlan::Run(args));
    }
    match nonblank_exec(&package_name) {
        None => Err("缺少包名".to_owned()),
        Some(p) => {
            let named = if is_text(&a, "install") || is_text(&a, "upgrade") {
                normalize_package_spec(p.as_str())
            } else {
                p
            };
            let ghost before = string_views(args@);
            args.push(named);
            assert(string_views(args@) =~= before.push(named@));
            Ok(PackagePlan::Run(args))
        },
    }
}

/// The next step of `upgrade-all` once the outdated names are known.
pub enum UpgradeAllStep {
    /// Nothing to upgrade; the action is done with this result.
    UpToDate(OperationResult),
    /// Run pip with these arguments.
    Run(Vec<String>),
}

/// With no outdated package the action ends at once; otherwise the names
/// follow the planned arguments.
pub fn upgrade_all_step(base: Vec<String>, names: Vec<String>) -> (r: UpgradeAllStep)
    ensures
        names@.len() == 0 ==> (r matches UpgradeAllStep::UpToDate(o) && o.ok && o.message@ == "所有包均已是最新版本"@
            && o.command@ == "pip list --outdated"@ && o.output@ == "没有需要升级的包"@),
        names@.len() > 0 ==> (r matches UpgradeAllStep::Run(a) && string_views(a@) == string_views(base@)
            + string_views(names@)),
{
    if names.len() == 0 {
        UpgradeAllStep::UpToDate(
            OperationResult {
                ok: true,
                message: "所有包均已是最新版本".to_owned(),
                command: "pip list --outdated".to_owned(),
                output: "没有需要升级的包".to_owned(),
            },
        )
    } else {
        let mut a = base;
        append_strings(&mut a, names);
        UpgradeAllStep::Run(a)
    }
}

/// The result of the pip run of an action.
pub fn package_done(result: ProcessOutput) -> (r: Result<OperationResult, String>)
    ensures
        !result.ok ==> r is Err && r->Err_0@ == failure_of(result.stdout@, result.stderr@, "包操作失败"@),
        result.ok ==> (r matches Ok(o) && o.ok && o.message@ == "包操作完成"@ && o.command@
            == result.command@ && o.output@ == two_outputs(result.stdout@, result.stderr@)),
{
    if !result.ok {
        return Err(failure(&result, "包操作失败"));
    }
    Ok(output(result, "包操作完成"))
}

/// The pip arguments of a plan.
pub open spec fn plan_args(p: PackagePlanView) -> Seq<Seq<char>> {
    match p {
        PackagePlanView::Run(a) => a,
        PackagePlanView::UpgradeAll(a) => a,
    }
}

/// A download index given with any action but `uninstall` and `show` reaches
/// pip: the arguments hold `--index-url` followed by the index, right after
/// the arguments that the action itself starts with.
pub proof fn law_index_url_reaches_pip(
    action: Seq<char>,
    uv: bool,
    package: Option<Seq<char>>,
    index: Seq<char>,
    requirements: Option<Seq<char>>,
)
    requires
        action != "uninstall"@,
        action != "show"@,
        trim(index).len() > 0,
    ensures
        package_plan_of(action, uv, package, Some(index), requirements) matches Ok(p) ==> {
            let a = plan_args(p);
            let k = action_args_of(action, uv, requirements)->Ok_0.len();
            &&& k + 1 < a.len()
            &&& a[k as int] == "--index-url"@
            &&& a[k + 1 as int] == index
        },
{
    reveal_strlit("--index-url");
}

} // verus!
