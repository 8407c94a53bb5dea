//! Virtual environments made by `venv` or uv: where they are looked for,
//! how they are made and which of them may be deleted.
use vstd::prelude::*;
use crate::conda::{home_of, push_lit, string_views};
use crate::json::{string_array, string_array_exec};
use crate::domain::{opt_string_view, OperationResult, VirtualEnvironment};
use crate::json::{json_string_array, json_document, json_get, json_str, parse_document, strings_to_json, text_result};
use crate::package::{nonblank, uses_uv};
use crate::path::{file_name, file_name_exec};
use crate::process::{failure, failure_of, ProcessOutput};
use crate::system::{first_line_of, seen_before};
use crate::path::{join_chars, join_path, path_order_key, path_order_key_exec};
use crate::sort::{sort_values, sorted_values, values_of};
use crate::text::{
    chars_of, concat, contains_char, eq, eq_ignore_case, eq_ignore_case_exec, replace_all, replace_all_exec,
    to_string, trim, trim_exec,
};

verus! {

/// The interpreter of a virtual environment: `Scripts\python.exe` on
/// Windows, `bin/python` elsewhere.
pub open spec fn venv_python_of(root: Seq<char>, windows: bool) -> Seq<char> {
    if windows {
        join_path(join_path(root, "Scripts"@, true), "python.exe"@, true)
    } else {
        join_path(join_path(root, "bin"@, false), "python"@, false)
    }
}

pub fn python_executable(root: &str, windows: bool) -> (r: String)
    ensures
        r@ == venv_python_of(root@, windows),
{
    let p = chars_of(root);
    if windows {
        to_string(&join_chars(&join_chars(&p, &chars_of("Scripts"), true), &chars_of("python.exe"), true))
    } else {
        to_string(&join_chars(&join_chars(&p, &chars_of("bin"), false), &chars_of("python"), false))
    }
}

/// `<home>/venvs`, where new virtual environments go by default; `home` is
/// `USERPROFILE` (Windows) or `HOME`, `.` when unset.
pub fn default_directory(home: Option<String>, windows: bool) -> (r: String)
    ensures
        r@ == join_path(home_of(opt_string_view(home)), "venvs"@, windows),
{
    let h = crate::conda::home_dir(home);
    to_string(&join_chars(&chars_of(h.as_str()), &chars_of("venvs"), windows))
}

/// The order key of a path held in a `String`.
pub open spec fn path_key_fn(windows: bool) -> spec_fn(String) -> Seq<u32> {
    |s: String| path_order_key(s@, windows)
}

/// `Vec::dedup` by key: of each run of neighbours with equal keys, the first.
pub open spec fn dedup_by_key<T>(s: Seq<T>, key: spec_fn(T) -> Seq<u32>) -> Seq<T>
    decreases s.len(),
{
    if s.len() == 0 {
        seq![]
    } else if s.len() >= 2 && key(s.last()) == key(s[s.len() - 2]) {
        dedup_by_key(s.drop_last(), key)
    } else {
        dedup_by_key(s.drop_last(), key).push(s.last())
    }
}

fn same_key(a: &Vec<u32>, b: &Vec<u32>) -> (r: bool)
    ensures
        r == (a@ == b@),
{
    if a.len() != b.len() {
        return false;
    }
    let mut i: usize = 0;
    while i < a.len()
        invariant
            i <= a.len() == b.len(),
            a@.take(i as int) == b@.take(i as int),
        decreases a.len() - i,
    {
        if a[i] != b[i] {
            assert(a@[i as int] != b@[i as int]);
            return false;
        }
        i = i + 1;
        assert(a@.take(i as int) =~= a@.take(i - 1).push(a@[i - 1]));
        assert(b@.take(i as int) =~= b@.take(i - 1).push(b@[i - 1]));
    }
    assert(a@.take(a.len() as int) =~= a@);
    assert(b@.take(b.len() as int) =~= b@);
    true
}

/// Paths sorted and deduplicated as `Vec<PathBuf>::sort` and `dedup` do it:
/// by their components, a stable sort, then the first of equal neighbours.
pub fn sort_dedup_paths(paths: Vec<String>, windows: bool) -> (r: Vec<String>)
    ensures
        exists|sorted: Seq<String>|
            sorted_values(sorted, paths@, path_key_fn(windows), false) && r@ == dedup_by_key(
                sorted,
                path_key_fn(windows),
            ),
{
    let ghost s = paths@;
    let mut rest = paths;
    let mut pairs: Vec<(Vec<u32>, String)> = Vec::new();
    let mut n: usize = 0;
    assert(rest@ =~= s.subrange(0, s.len() as int));
    assert(s.len() == rest.len());
    while rest.len() > 0
        invariant
            n + rest.len() == s.len(),
            s.len() <= usize::MAX,
            rest@ == s.subrange(n as int, s.len() as int),
            values_of(pairs@) == s.subrange(0, n as int),
            forall|i: int| 0 <= i < pairs@.len() ==> (#[trigger] pairs@[i]).0@ == path_key_fn(windows)(pairs@[i].1),
        decreases rest.len(),
    {
        let ghost before = values_of(pairs@);
        let x = rest.remove(0);
        assert(x == s[n as int]);
        let k = path_order_key_exec(&chars_of(x.as_str()), windows);
        pairs.push((k, x));
        assert(values_of(pairs@) =~= before.push(s[n as int]));
        n = n + 1;
        assert(rest@ =~= s.subrange(n as int, s.len() as int));
    }
    assert(s.subrange(0, n as int) =~= s);
    let sorted = sort_values(pairs, false, Ghost(path_key_fn(windows)));
    let ghost so = sorted@;
    let mut out: Vec<String> = Vec::new();
    let mut prev: Vec<u32> = Vec::new();
    let mut i: usize = 0;
    assert(so.take(0) =~= Seq::<String>::empty());
    while i < sorted.len()
        invariant
            i <= sorted.len(),
            so == sorted@,
            out@ == dedup_by_key(so.take(i as int), path_key_fn(windows)),
            i > 0 ==> prev@ == path_order_key(so[i - 1]@, windows),
        decreases sorted.len() - i,
    {
        let k = path_order_key_exec(&chars_of(sorted[i].as_str()), windows);
        assert(so.take(i + 1).drop_last() =~= so.take(i as int));
        assert(so.take(i + 1).last() == so[i as int]);
        if i > 0 {
            assert(so.take(i + 1)[i - 1] == so[i - 1]);
        }
        if i == 0 || !same_key(&k, &prev) {
            out.push(sorted[i].clone());
        }
        prev = k;
        i = i + 1;
    }
    assert(so.take(sorted.len() as int) =~= so);
    out
}

/// The registry of folders that hold virtual environments, and the file it
/// is first written to: `<home>/.wj-python-venv-roots.json` and the same
/// with `.json.tmp` (what `with_extension("json.tmp")` makes of that name).
pub fn registry_path(home: Option<String>, windows: bool) -> (r: (String, String))
    ensures
        r.0@ == join_path(home_of(opt_string_view(home)), ".wj-python-venv-roots.json"@, windows),
        r.1@ == join_path(home_of(opt_string_view(home)), ".wj-python-venv-roots.json.tmp"@, windows),
{
    let h = chars_of(crate::conda::home_dir(home).as_str());
    (
        to_string(&join_chars(&h, &chars_of(".wj-python-venv-roots.json"), windows)),
        to_string(&join_chars(&h, &chars_of(".wj-python-venv-roots.json.tmp"), windows)),
    )
}

/// The folders saved in the registry: its JSON array of paths; nothing when
/// it could not be read or is not such an array.
pub open spec fn saved_roots_of(content: Option<Seq<char>>) -> Seq<Seq<char>> {
    match content {
        None => seq![],
        Some(c) => match json_document(c) {
            Ok(v) => match string_array(v) {
                Some(ss) => ss,
                None => seq![],
            },
            Err(_) => seq![],
        },
    }
}

pub fn saved_roots(content: Option<String>) -> (r: Vec<String>)
    ensures
        string_views(r@) == saved_roots_of(opt_string_view(content)),
{
    let c = match &content {
        None => return Vec::new(),
        Some(c) => c,
    };
    match parse_document(c.as_str()) {
        Ok(v) => match string_array_exec(&v) {
            Some(ss) => {
                assert(string_views(ss@) =~= ss@.map_values(|s: String| s@));
                ss
            },
            None => Vec::new(),
        },
        Err(_) => Vec::new(),
    }
}

/// The folders searched for virtual environments: `venvs`, `envs` and
/// `Envs` in the home folder, the saved ones and the last one used, sorted
/// and without repeats as paths.
pub open spec fn search_roots_unsorted(
    home: Option<Seq<char>>,
    saved: Seq<Seq<char>>,
    last_directory: Option<Seq<char>>,
    windows: bool,
) -> Seq<Seq<char>> {
    let h = home_of(home);
    seq![join_path(h, "venvs"@, windows), join_path(h, "envs"@, windows), join_path(h, "Envs"@, windows)] + saved
        + (match last_directory {
        Some(l) => seq![l],
        None => seq![],
    })
}

pub fn search_roots(home: Option<String>, saved: Vec<String>, last_directory: Option<String>, windows: bool) -> (r: Vec<
    String,
>)
    ensures
        exists|all: Seq<String>, sorted: Seq<String>|
            string_views(all) == search_roots_unsorted(
                opt_string_view(home),
                string_views(saved@),
                opt_string_view(last_directory),
                windows,
            ) && sorted_values(sorted, all, path_key_fn(windows), false) && r@ == dedup_by_key(
                sorted,
                path_key_fn(windows),
            ),
{
    let h = chars_of(crate::conda::home_dir(home).as_str());
    let mut all: Vec<String> = Vec::new();
    all.push(to_string(&join_chars(&h, &chars_of("venvs"), windows)));
    all.push(to_string(&join_chars(&h, &chars_of("envs"), windows)));
    all.push(to_string(&join_chars(&h, &chars_of("Envs"), windows)));
    let ghost first = string_views(all@);
    let mut i: usize = 0;
    while i < saved.len()
        invariant
            i <= saved.len(),
            string_views(all@) == first + string_views(saved@).take(i as int),
        decreases saved.len() - i,
    {
        let ghost before = string_views(all@);
        all.push(saved[i].clone());
        assert(string_views(all@) =~= before.push(saved@[i as int]@));
        i = i + 1;
        assert(string_views(saved@).take(i as int) =~= string_views(saved@).take(i - 1).push(saved@[i - 1]@));
    }
    assert(string_views(saved@).take(saved.len() as int) =~= string_views(saved@));
    let ghost second = string_views(all@);
    match &last_directory {
        Some(l) => {
            all.push(l.clone());
            assert(string_views(all@) =~= second + seq![l@]);
        },
        None => {
            assert(string_views(all@) =~= second + Seq::<Seq<char>>::empty());
        },
    }
    assert(string_views(all@) =~= search_roots_unsorted(
        opt_string_view(home),
        string_views(saved@),
        opt_string_view(last_directory),
        windows,
    ));
    let ghost all_v = all@;
    sort_dedup_paths(all, windows)
}

/// The manager an environment's metadata names: `uv` when the file is a
/// JSON object whose `manager` is the string `uv`, `venv` otherwise (also
/// when there is no file).
pub open spec fn manager_of_metadata(content: Option<Seq<char>>) -> Seq<char> {
    match content {
        Some(c) => match json_document(c) {
            Ok(v) => if json_str(json_get(v, "manager"@)) == Some("uv"@) {
                "uv"@
            } else {
                "venv"@
            },
            Err(_) => "venv"@,
        },
        None => "venv"@,
    }
}

pub fn metadata_manager(content: &Option<String>) -> (r: String)
    ensures
        r@ == manager_of_metadata(opt_string_view(*content)),
{
    match content {
        Some(c) => match parse_document(c.as_str()) {
            Ok(v) => match crate::json::get_str(&v, &chars_of("manager")) {
                Some(m) => if eq(&m, &chars_of("uv")) {
                    "uv".to_owned()
                } else {
                    "venv".to_owned()
                },
                None => "venv".to_owned(),
            },
            Err(_) => "venv".to_owned(),
        },
        None => "venv".to_owned(),
    }
}

/// The version a virtual environment's interpreter printed: the first line
/// of stdout, else of stderr, else `未知`, with `Python ` taken out.
pub open spec fn venv_version_of(stdout: Seq<char>, stderr: Seq<char>) -> Seq<char> {
    replace_all(
        match first_line_of(stdout, stderr) {
            Some(l) => l,
            None => "未知"@,
        },
        "Python "@,
        ""@,
    )
}

pub fn venv_version(output: &ProcessOutput) -> (r: String)
    ensures
        r@ == venv_version_of(output.stdout@, output.stderr@),
{
    let first = match crate::system::first_line(output.stdout.as_str(), output.stderr.as_str()) {
        Some(l) => l,
        None => chars_of("未知"),
    };
    to_string(&replace_all_exec(&first, &chars_of("Python "), &chars_of("")))
}

/// A folder that holds a virtual environment, as listed: named after its
/// last component (none when it has no name).
pub fn environment_at(path: &str, metadata: &Option<String>, python_version: String, windows: bool) -> (r: Option<
    VirtualEnvironment,
>)
    ensures
        match r {
            Some(e) => file_name(path@, windows) == Some(e.name@) && e.path@ == path@ && e.manager@
                == manager_of_metadata(opt_string_view(*metadata)) && e.python_version@ == python_version@,
            None => file_name(path@, windows) is None,
        },
{
    let name = match file_name_exec(&chars_of(path), windows) {
        Some(n) => n,
        None => return None,
    };
    Some(
        VirtualEnvironment {
            name: to_string(&name),
            path: path.to_owned(),
            manager: metadata_manager(metadata),
            python_version,
        },
    )
}

pub open spec fn env_name_key() -> spec_fn(VirtualEnvironment) -> Seq<u32> {
    |e: VirtualEnvironment| crate::sort::code_points(e.name@)
}

/// The environments sorted by name, stably.
pub fn sort_by_name(envs: Vec<VirtualEnvironment>) -> (r: Vec<VirtualEnvironment>)
    ensures
        sorted_values(r@, envs@, env_name_key(), false),
{
    let ghost s = envs@;
    let mut rest = envs;
    let mut pairs: Vec<(Vec<u32>, VirtualEnvironment)> = Vec::new();
    let mut n: usize = 0;
    assert(rest@ =~= s.subrange(0, s.len() as int));
    assert(s.len() == rest.len());
    while rest.len() > 0
        invariant
            n + rest.len() == s.len(),
            s.len() <= usize::MAX,
            rest@ == s.subrange(n as int, s.len() as int),
            values_of(pairs@) == s.subrange(0, n as int),
            forall|i: int| 0 <= i < pairs@.len() ==> (#[trigger] pairs@[i]).0@ == env_name_key()(pairs@[i].1),
        decreases rest.len(),
    {
        let ghost before = values_of(pairs@);
        let e = rest.remove(0);
        assert(e == s[n as int]);
        let k = crate::sort::code_points_exec(&chars_of(e.name.as_str()));
        pairs.push((k, e));
        assert(values_of(pairs@) =~= before.push(s[n as int]));
        n = n + 1;
        assert(rest@ =~= s.subrange(n as int, s.len() as int));
    }
    assert(s.subrange(0, n as int) =~= s);
    sort_values(pairs, false, Ghost(env_name_key()))
}

/// Why a new environment's name or folder is refused, if it is.
pub open spec fn venv_name_error_of(name: Seq<char>, target_path: Seq<char>) -> Option<Seq<char>> {
    if trim(name).len() == 0 || trim(target_path).len() == 0 {
        Some("环境名称和目标目录不能为空"@)
    } else if name == "."@ || name == ".."@ || name.contains('/') || name.contains('\\') || name.contains(':') {
        Some("环境名称不能包含路径分隔符"@)
    } else {
        None
    }
}

pub fn venv_name_check(name: &str, target_path: &str) -> (r: Result<(), String>)
    ensures
        match r {
            Ok(_) => venv_name_error_of(name@, target_path@) is None,
            Err(e) => venv_name_error_of(name@, target_path@) == Some(e@),
        },
{
    let n = chars_of(name);
    if trim_exec(&n).len() == 0 || trim_exec(&chars_of(target_path)).len() == 0 {
        return Err("环境名称和目标目录不能为空".to_owned());
    }
    if eq(&n, &chars_of(".")) || eq(&n, &chars_of("..")) || contains_char(&n, '/') || contains_char(&n, '\\')
        || contains_char(&n, ':') {
        return Err("环境名称不能包含路径分隔符".to_owned());
    }
    Ok(())
}

/// Which program must be found on the machine to create the environment:
/// uv for a uv environment; for a venv, `python` (Windows) or `python3` when
/// no interpreter is given.
pub open spec fn program_to_find_of(use_uv: bool, python_path: Option<Seq<char>>, windows: bool) -> Option<Seq<char>> {
    if use_uv {
        Some("uv"@)
    } else if nonblank(python_path) is Some {
        None
    } else if windows {
        Some("python"@)
    } else {
        Some("python3"@)
    }
}

pub fn program_to_find(use_uv: bool, python_path: &Option<String>, windows: bool) -> (r: Option<String>)
    ensures
        opt_string_view(r) == program_to_find_of(use_uv, opt_string_view(*python_path), windows),
{
    if use_uv {
        return Some("uv".to_owned());
    }
    let given = match python_path {
        Some(p) => trim_exec(&chars_of(p.as_str())).len() > 0,
        None => false,
    };
    if given {
        None
    } else if windows {
        Some("python".to_owned())
    } else {
        Some("python3".to_owned())
    }
}

/// The command that creates the environment at `path`: `uv venv [--python
/// <python>] <path>`, or `<python> -m venv <path>`; `found` is where the
/// program of `program_to_find` was found.
pub open spec fn create_command_of(
    use_uv: bool,
    path: Seq<char>,
    python_path: Option<Seq<char>>,
    found: Option<Seq<char>>,
) -> Result<(Seq<char>, Seq<Seq<char>>), Seq<char>> {
    if use_uv {
        match found {
            None => Err("未检测到 uv。请切换为“Python venv”，或先安装 uv 后再选择 uv"@),
            Some(uv) => Ok((
                uv,
                seq!["venv"@] + (match nonblank(python_path) {
                    Some(p) => seq!["--python"@, p],
                    None => seq![],
                }) + seq![path],
            )),
        }
    } else {
        match nonblank(python_path) {
            Some(p) => Ok((p, seq!["-m"@, "venv"@, path])),
            None => match found {
                Some(p) => Ok((p, seq!["-m"@, "venv"@, path])),
                None => Err("未检测到 Python，请填写可执行文件的完整路径"@),
            },
        }
    }
}

pub fn create_command(use_uv: bool, path: &str, python_path: Option<String>, found: Option<String>) -> (r: Result<
    (String, Vec<String>),
    String,
>)
    ensures
        crate::package::command_view(r) == create_command_of(
            use_uv,
            path@,
            opt_string_view(python_path),
            opt_string_view(found),
        ),
{
    let given = match &python_path {
        Some(p) => if trim_exec(&chars_of(p.as_str())).len() > 0 {
            Some(p.clone())
        } else {
            None
        },
        None => None,
    };
    assert(opt_string_view(given) == nonblank(opt_string_view(python_path)));
    let mut args: Vec<String> = Vec::new();
    if use_uv {
        let uv = match found {
            None => return Err("未检测到 uv。请切换为“Python venv”，或先安装 uv 后再选择 uv".to_owned()),
            Some(u) => u,
        };
        push_lit(&mut args, "venv");
        let ghost a = string_views(args@);
        match given {
            Some(p) => {
                push_lit(&mut args, "--python");
                let ghost b = string_views(args@);
                args.push(p);
                assert(string_views(args@) =~= b.push(p@));
            },
            None => {},
        }
        push_lit(&mut args, path);
        assert(string_views(args@) =~= create_command_of(use_uv, path@, opt_string_view(python_path), opt_string_view(found))->Ok_0.1);
        Ok((uv, args))
    } else {
        let program = match given {
            Some(p) => p,
            None => match found {
                Some(p) => p,
                None => return Err("未检测到 Python，请填写可执行文件的完整路径".to_owned()),
            },
        };
        push_lit(&mut args, "-m");
        push_lit(&mut args, "venv");
        push_lit(&mut args, path);
        assert(string_views(args@) =~= seq!["-m"@, "venv"@, path@]);
        Ok((program, args))
    }
}

/// The metadata file written into a new environment, naming its manager.
pub fn metadata_text(use_uv: bool) -> (r: String)
    ensures
        r@ == (if use_uv {
            "{\"manager\":\"uv\"}"@
        } else {
            "{\"manager\":\"venv\"}"@
        }),
{
    if use_uv {
        "{\"manager\":\"uv\"}".to_owned()
    } else {
        "{\"manager\":\"venv\"}".to_owned()
    }
}

/// A failed creation is reported with its own output.
pub fn venv_ran(output: &ProcessOutput) -> (r: Result<(), String>)
    ensures
        r is Ok == output.ok,
        r matches Err(m) ==> m@ == failure_of(output.stdout@, output.stderr@, "创建虚拟环境失败"@),
{
    if output.ok {
        Ok(())
    } else {
        Err(failure(output, "创建虚拟环境失败"))
    }
}

/// The registry after a creation: the saved folders and the new
/// environment's folder, sorted and without repeats, as JSON.
pub fn registry_after_create(saved: Vec<String>, parent: Option<String>, windows: bool) -> (r: Result<String, String>)
    ensures
        exists|sorted: Seq<String>|
            sorted_values(
                sorted,
                saved@ + (match parent {
                    Some(p) => seq![p],
                    None => Seq::<String>::empty(),
                }),
                path_key_fn(windows),
                false,
            ) && r is Ok && r->Ok_0@ == json_string_array(string_views(dedup_by_key(sorted, path_key_fn(windows)))),
{
    let mut roots = saved;
    let ghost before = roots@;
    match parent {
        Some(p) => {
            roots.push(p);
        },
        None => {},
    }
    assert(roots@ =~= before + (match parent {
        Some(p) => seq![p],
        None => Seq::<String>::empty(),
    }));
    let kept = sort_dedup_paths(roots, windows);
    assert(kept@.map_values(|s: String| s@) =~= string_views(kept@));
    strings_to_json(&kept)
}

/// The result of a created environment.
pub fn venv_created_result(name: &str, command: String, stdout: String) -> (r: OperationResult)
    ensures
        r.ok && r.message@ == "虚拟环境 "@ + name@ + " 创建完成"@ && r.command@ == command@ && r.output@ == stdout@,
{
    let message = to_string(&concat(&concat(&chars_of("虚拟环境 "), &chars_of(name)), &chars_of(" 创建完成")));
    OperationResult { ok: true, message, command, output: stdout }
}

/// The arguments of `uv pip freeze` for an environment's interpreter.
pub fn freeze_args(python: &str) -> (r: Vec<String>)
    ensures
        string_views(r@) == seq!["pip"@, "freeze"@, "--python"@, python@],
{
    let mut v: Vec<String> = Vec::new();
    push_lit(&mut v, "pip");
    push_lit(&mut v, "freeze");
    push_lit(&mut v, "--python");
    push_lit(&mut v, python);
    v
}

/// The arguments of `uv pip install` of a requirements file.
pub fn requirements_args(python: &str, requirements: &str) -> (r: Vec<String>)
    ensures
        string_views(r@) == seq!["pip"@, "install"@, "--python"@, python@, "--requirement"@, requirements@],
{
    let mut v: Vec<String> = Vec::new();
    push_lit(&mut v, "pip");
    push_lit(&mut v, "install");
    push_lit(&mut v, "--python");
    push_lit(&mut v, python);
    push_lit(&mut v, "--requirement");
    push_lit(&mut v, requirements);
    v
}

/// Is the environment, by its resolved path, one of the listed ones (ASCII
/// case aside)?
pub fn is_registered(target: &str, listed: &Vec<String>) -> (r: bool)
    ensures
        r == seen_before(string_views(listed@), target@),
{
    let t = chars_of(target);
    let mut i: usize = 0;
    while i < listed.len()
        invariant
            i <= listed.len(),
            t@ == target@,
            forall|k: int| 0 <= k < i ==> !eq_ignore_case(#[trigger] string_views(listed@)[k], target@),
        decreases listed.len() - i,
    {
        if eq_ignore_case_exec(&chars_of(listed[i].as_str()), &t) {
            assert(eq_ignore_case(string_views(listed@)[i as int], target@));
            return true;
        }
        i = i + 1;
    }
    false
}

/// Why an environment may not be deleted, if it may not: the path must be
/// given and exist, hold a virtual environment, and be listed by this
/// program or carry its metadata.
pub open spec fn removal_error_of(path: Seq<char>, exists: bool, valid: bool, registered: bool, owned: bool) -> Option<
    Seq<char>,
> {
    if trim(path).len() == 0 {
        Some("缺少虚拟环境路径"@)
    } else if !exists {
        Some("虚拟环境不存在"@)
    } else if !valid {
        Some("该目录不是有效虚拟环境，拒绝删除"@)
    } else if !registered && !owned {
        Some("该虚拟环境未被本程序登记，拒绝删除；请先从已发现环境中选择"@)
    } else {
        None
    }
}

pub fn removal_check(path: &str, exists: bool, valid: bool, registered: bool, owned: bool) -> (r: Result<(), String>)
    ensures
        match r {
            Ok(_) => removal_error_of(path@, exists, valid, registered, owned) is None,
            Err(e) => removal_error_of(path@, exists, valid, registered, owned) == Some(e@),
        },
{
    if trim_exec(&chars_of(path)).len() == 0 {
        Err("缺少虚拟环境路径".to_owned())
    } else if !exists {
        Err("虚拟环境不存在".to_owned())
    } else if !valid {
        Err("该目录不是有效虚拟环境，拒绝删除".to_owned())
    } else if !registered && !owned {
        Err("该虚拟环境未被本程序登记，拒绝删除；请先从已发现环境中选择".to_owned())
    } else {
        Ok(())
    }
}

/// The result of a deleted environment.
pub fn venv_removed_result(path: String) -> (r: OperationResult)
    ensures
        r.ok && r.message@ == "虚拟环境已删除"@ && r.command@ == "filesystem.remove_dir_all"@ && r.output@ == path@,
{
    OperationResult {
        ok: true,
        message: "虚拟环境已删除".to_owned(),
        command: "filesystem.remove_dir_all".to_owned(),
        output: path,
    }
}

} // verus!
