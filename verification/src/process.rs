//! Running external programs: how a command is shown, how long it may run,
//! what its failure says, where a program may be found, and which run now.
use vstd::prelude::*;
use crate::conda::string_views;
use crate::domain::opt_string_view;
use crate::path::{extension, extension_exec, join_chars, join_path, path_names, is_sep, is_sep_exec};
use crate::text::{
    chars_of, concat, contains, contains_exec, eq, eq_ignore_case, eq_ignore_case_exec, is_space,
    is_whitespace, join, lines, lines_exec, lower, lower_exec, replace_all, replace_all_exec,
    to_string, trim, trim_exec, views,
};

verus! {

/// A program that is running now.
pub struct ActiveProcess {
    pub pid: u32,
    pub command: String,
    pub started_at: u64,
}

/// What a finished (or failed to start) program gave back.
pub struct ProcessOutput {
    pub ok: bool,
    pub stdout: String,
    pub stderr: String,
    pub command: String,
}

/// Characters that make an argument need quotes on a command line.
pub open spec fn needs_quotes_char(c: char) -> bool {
    is_space(c) || c == '&' || c == '|' || c == '<' || c == '>' || c == '^'
}

/// An argument as shown on a command line: quoted (with `"` escaped as `\"`)
/// when it is empty or holds white space or one of `&|<>^`.
pub open spec fn quoted(value: Seq<char>) -> Seq<char> {
    if value.len() == 0 || exists|i: int| 0 <= i < value.len() && needs_quotes_char(#[trigger] value[i]) {
        "\""@ + replace_all(value, "\""@, "\\\""@) + "\""@
    } else {
        value
    }
}

pub fn quote_chars(value: &Vec<char>) -> (r: Vec<char>)
    ensures
        r@ == quoted(value@),
{
    let mut needs = value.len() == 0;
    let mut i: usize = 0;
    while i < value.len()
        invariant
            i <= value.len(),
            needs == (value@.len() == 0 || exists|k: int| 0 <= k < i && needs_quotes_char(#[trigger] value@[k])),
        decreases value.len() - i,
    {
        let c = value[i];
        if is_whitespace(c) || c == '&' || c == '|' || c == '<' || c == '>' || c == '^' {
            needs = true;
        }
        i = i + 1;
    }
    if needs {
        let inner = replace_all_exec(value, &chars_of("\""), &chars_of("\\\""));
        concat(&concat(&chars_of("\""), &inner), &chars_of("\""))
    } else {
        value.clone()
    }
}

pub fn quote_arg(value: &str) -> (r: String)
    ensures
        r@ == quoted(value@),
{
    to_string(&quote_chars(&chars_of(value)))
}

/// The command as shown to the user: program and arguments, each quoted as
/// needed, separated by spaces.
pub open spec fn command_line_of(program: Seq<char>, args: Seq<Seq<char>>) -> Seq<char> {
    join(seq![quoted(program)] + args.map_values(|a: Seq<char>| quoted(a)), " "@)
}

pub fn command_line(program: &str, args: &Vec<String>) -> (r: String)
    ensures
        r@ == command_line_of(program@, string_views(args@)),
{
    let mut parts: Vec<Vec<char>> = Vec::new();
    parts.push(quote_chars(&chars_of(program)));
    let mut i: usize = 0;
    while i < args.len()
        invariant
            i <= args.len(),
            views(parts@) == seq![quoted(program@)] + string_views(args@).subrange(0, i as int).map_values(
                |a: Seq<char>| quoted(a),
            ),
        decreases args.len() - i,
    {
        let ghost b = views(parts@);
        parts.push(quote_chars(&chars_of(args[i].as_str())));
        assert(views(parts@) =~= b.push(quoted(args@[i as int]@)));
        i = i + 1;
        assert(views(parts@) =~= seq![quoted(program@)] + string_views(args@).subrange(0, i as int).map_values(
            |a: Seq<char>| quoted(a),
        ));
    }
    assert(string_views(args@).subrange(0, args.len() as int) =~= string_views(args@));
    to_string(&crate::text::join_exec(&parts, &chars_of(" ")))
}

/// Batch files are started through `cmd.exe` on Windows.
pub open spec fn needs_cmd_of(program: Seq<char>, windows: bool) -> bool {
    windows && (extension(program, windows) == Some("bat"@) || extension(program, windows) == Some(
        "cmd"@,
    ))
}

pub fn needs_cmd(program: &str, windows: bool) -> (r: bool)
    ensures
        r == needs_cmd_of(program@, windows),
{
    if !windows {
        return false;
    }
    match extension_exec(&chars_of(program), windows) {
        Some(e) => eq(&e, &chars_of("bat")) || eq(&e, &chars_of("cmd")),
        None => false,
    }
}

pub open spec fn has_arg(args: Seq<Seq<char>>, a: Seq<char>) -> bool {
    exists|i: int| 0 <= i < args.len() && args[i] == a
}

/// How long a command may run, in seconds: version and lookup queries 15,
/// JSON listings 60, searches 120, everything else an hour.
pub open spec fn timeout_of(program: Seq<char>, args: Seq<Seq<char>>) -> u64 {
    if has_arg(args, "--version"@) || has_arg(args, "-0p"@) || crate::text::ends_with(program, "where.exe"@) {
        15
    } else if has_arg(args, "--json"@) && has_arg(args, "list"@) {
        60
    } else if has_arg(args, "search"@) {
        120
    } else {
        3600
    }
}

fn has_arg_exec(args: &Vec<String>, a: &str) -> (r: bool)
    ensures
        r == has_arg(string_views(args@), a@),
{
    let target = chars_of(a);
    let mut i: usize = 0;
    while i < args.len()
        invariant
            i <= args.len(),
            target@ == a@,
            forall|k: int| 0 <= k < i ==> args@[k]@ != a@,
        decreases args.len() - i,
    {
        if eq(&chars_of(args[i].as_str()), &target) {
            assert(string_views(args@)[i as int] == a@);
            return true;
        }
        i = i + 1;
    }
    proof {
        if has_arg(string_views(args@), a@) {
            let k = choose|k: int| 0 <= k < string_views(args@).len() && string_views(args@)[k] == a@;
            assert(args@[k]@ == a@);
        }
    }
    false
}

pub fn timeout_seconds(program: &str, args: &Vec<String>) -> (r: u64)
    ensures
        r == timeout_of(program@, string_views(args@)),
{
    if has_arg_exec(args, "--version") || has_arg_exec(args, "-0p") || crate::text::ends_with_exec(
        &chars_of(program),
        &chars_of("where.exe"),
    ) {
        15
    } else if has_arg_exec(args, "--json") && has_arg_exec(args, "list") {
        60
    } else if has_arg_exec(args, "search") {
        120
    } else {
        3600
    }
}

/// The message of a failed command: its stderr, else its stdout, else the fallback.
pub open spec fn failure_of(stdout: Seq<char>, stderr: Seq<char>, fallback: Seq<char>) -> Seq<char> {
    if trim(stderr).len() > 0 {
        stderr
    } else if trim(stdout).len() > 0 {
        stdout
    } else {
        fallback
    }
}

pub fn failure(output: &ProcessOutput, fallback: &str) -> (r: String)
    ensures
        r@ == failure_of(output.stdout@, output.stderr@, fallback@),
{
    if trim_exec(&chars_of(output.stderr.as_str())).len() > 0 {
        output.stderr.clone()
    } else if trim_exec(&chars_of(output.stdout.as_str())).len() > 0 {
        output.stdout.clone()
    } else {
        fallback.to_owned()
    }
}

/// Store-app aliases of Windows (`...\WindowsApps\...`) that only open the store.
pub open spec fn is_store_alias(line: Seq<char>) -> bool {
    contains(lower(line), "\\windowsapps\\"@)
}

pub fn is_store_alias_exec(line: &Vec<char>) -> (r: bool)
    ensures
        r == is_store_alias(line@),
{
    contains_exec(&lower_exec(line), &chars_of("\\windowsapps\\"))
}

/// The first line of a lookup (`where`/`which`) that is neither blank nor a
/// store alias, trimmed.
pub open spec fn first_found_in(ls: Seq<Seq<char>>) -> Option<Seq<char>>
    decreases ls.len(),
{
    if ls.len() == 0 {
        None
    } else if trim(ls[0]).len() > 0 && !is_store_alias(ls[0]) {
        Some(trim(ls[0]))
    } else {
        first_found_in(ls.drop_first())
    }
}

pub fn lookup_result(stdout: &str) -> (r: Option<String>)
    ensures
        opt_string_view(r) == first_found_in(lines(stdout@)),
{
    let ls = lines_exec(&chars_of(stdout));
    let ghost lv = views(ls@);
    let mut i: usize = 0;
    assert(lv.subrange(0, lv.len() as int) =~= lv);
    while i < ls.len()
        invariant
            i <= ls.len(),
            lv == views(ls@),
            lv == lines(stdout@),
            first_found_in(lv) == first_found_in(lv.subrange(i as int, lv.len() as int)),
        decreases ls.len() - i,
    {
        let ghost rest = lv.subrange(i as int, lv.len() as int);
        assert(rest.drop_first() =~= lv.subrange(i + 1, lv.len() as int));
        assert(rest[0] == ls@[i as int]@);
        let t = trim_exec(&ls[i]);
        if t.len() > 0 && !is_store_alias_exec(&ls[i]) {
            return Some(to_string(&t));
        }
        i = i + 1;
    }
    None
}

/// `Path::parent` as text: the path without its last name; `None` when
/// nothing but a root or drive is left to take away.
pub open spec fn parent_text(p: Seq<char>, windows: bool) -> Option<Seq<char>> {
    let s = strip_trailing_seps(p, windows);
    let root = root_len(s, windows);
    if s.len() <= root {
        None
    } else {
        let cut = last_sep_end(s, windows);
        let kept = if cut <= root {
            s.subrange(0, root as int)
        } else {
            strip_trailing_seps(s.subrange(0, cut as int), windows)
        };
        Some(if kept.len() < root {
            s.subrange(0, root as int)
        } else {
            kept
        })
    }
}

/// Length of the drive and root at the start (`C:\`, `C:`, `\`, `/`).
pub open spec fn root_len(s: Seq<char>, windows: bool) -> nat {
    let d: nat = if crate::path::has_drive(s, windows) {
        2
    } else {
        0
    };
    if s.len() > d && is_sep(s[d as int], windows) {
        d + 1
    } else {
        d
    }
}

/// The path without separators at its end (a lone root is kept).
pub open spec fn strip_trailing_seps(s: Seq<char>, windows: bool) -> Seq<char>
    decreases s.len(),
{
    if s.len() > 1 && is_sep(s.last(), windows) {
        strip_trailing_seps(s.drop_last(), windows)
    } else {
        s
    }
}

/// The index just after the last separator, or 0.
pub open spec fn last_sep_end(s: Seq<char>, windows: bool) -> nat
    decreases s.len(),
{
    if s.len() == 0 {
        0
    } else if is_sep(s.last(), windows) {
        s.len()
    } else {
        last_sep_end(s.drop_last(), windows)
    }
}

fn strip_trailing_seps_exec(s: &Vec<char>, windows: bool) -> (r: Vec<char>)
    ensures
        r@ == strip_trailing_seps(s@, windows),
{
    let mut n = s.len();
    assert(s@.subrange(0, n as int) =~= s@);
    while n > 1 && is_sep_exec(s[n - 1], windows)
        invariant
            n <= s.len(),
            strip_trailing_seps(s@, windows) == strip_trailing_seps(s@.subrange(0, n as int), windows),
        decreases n,
    {
        assert(s@.subrange(0, n as int).drop_last() =~= s@.subrange(0, n - 1));
        n = n - 1;
    }
    crate::text::slice(s, 0, n)
}

fn root_len_exec(s: &Vec<char>, windows: bool) -> (r: usize)
    ensures
        r == root_len(s@, windows),
{
    let d: usize = if crate::path::has_drive_exec(s, windows) {
        2
    } else {
        0
    };
    if s.len() > d && is_sep_exec(s[d], windows) {
        d + 1
    } else {
        d
    }
}

fn last_sep_end_exec(s: &Vec<char>, windows: bool) -> (r: usize)
    ensures
        r == last_sep_end(s@, windows),
        r <= s.len(),
{
    let mut n = s.len();
    assert(s@.subrange(0, n as int) =~= s@);
    while n > 0 && !is_sep_exec(s[n - 1], windows)
        invariant
            n <= s.len(),
            last_sep_end(s@, windows) == last_sep_end(s@.subrange(0, n as int), windows),
        decreases n,
    {
        assert(s@.subrange(0, n as int).drop_last() =~= s@.subrange(0, n - 1));
        n = n - 1;
    }
    proof {
        if n > 0 {
            assert(s@.subrange(0, n as int).last() == s@[n - 1]);
        }
    }
    n
}

pub fn parent_text_exec(p: &Vec<char>, windows: bool) -> (r: Option<Vec<char>>)
    ensures
        match r {
            Some(x) => parent_text(p@, windows) == Some(x@),
            None => parent_text(p@, windows) is None,
        },
{
    let s = strip_trailing_seps_exec(p, windows);
    let root = root_len_exec(&s, windows);
    if s.len() <= root {
        return None;
    }
    let cut = last_sep_end_exec(&s, windows);
    let kept = if cut <= root {
        crate::text::slice(&s, 0, root)
    } else {
        strip_trailing_seps_exec(&crate::text::slice(&s, 0, cut), windows)
    };
    if kept.len() < root {
        Some(crate::text::slice(&s, 0, root))
    } else {
        Some(kept)
    }
}

/// For a `conda.bat` found on Windows, the `conda.exe` beside its installation:
/// `<grandparent>\Scripts\conda.exe` (whether it exists is checked by the caller).
pub open spec fn native_conda_candidate_of(path: Seq<char>, windows: bool) -> Option<Seq<char>> {
    if !windows {
        None
    } else {
        match extension(path, true) {
            Some(e) => if eq_ignore_case(e, "bat"@) {
                match parent_text(path, true) {
                    Some(p) => match parent_text(p, true) {
                        Some(root) => Some(join_path(join_path(root, "Scripts"@, true), "conda.exe"@, true)),
                        None => None,
                    },
                    None => None,
                }
            } else {
                None
            },
            None => None,
        }
    }
}

pub fn native_conda_executable(path: &str, windows: bool) -> (r: Option<String>)
    ensures
        opt_string_view(r) == native_conda_candidate_of(path@, windows),
{
    if !windows {
        return None;
    }
    let p = chars_of(path);
    match extension_exec(&p, true) {
        Some(e) => {
            if !eq_ignore_case_exec(&e, &chars_of("bat")) {
                return None;
            }
        },
        None => {
            return None;
        },
    }
    match parent_text_exec(&p, true) {
        Some(parent) => match parent_text_exec(&parent, true) {
            Some(root) => Some(to_string(&join_chars(&join_chars(&root, &chars_of("Scripts"), true), &chars_of("conda.exe"), true))),
            None => None,
        },
        None => None,
    }
}

/// The environment variables that the fallback locations are built from.
pub struct ProgramEnv {
    pub conda_exe: Option<String>,
    pub conda_prefix: Option<String>,
    pub local_app_data: Option<String>,
    pub user_profile: Option<String>,
    pub home: Option<String>,
}

pub open spec fn j2(a: Seq<char>, b: Seq<char>, c: Seq<char>, windows: bool) -> Seq<char> {
    join_path(join_path(a, b, windows), c, windows)
}

pub open spec fn j3(a: Seq<char>, b: Seq<char>, c: Seq<char>, d: Seq<char>, windows: bool) -> Seq<char> {
    join_path(j2(a, b, c, windows), d, windows)
}

/// `<root>\<folder>\Scripts\conda.exe` and `<root>\<folder>\condabin\conda.bat`.
pub open spec fn conda_pair(root: Seq<char>, folder: Seq<char>) -> Seq<Seq<char>> {
    seq![j3(root, folder, "Scripts"@, "conda.exe"@, true), j3(root, folder, "condabin"@, "conda.bat"@, true)]
}

pub open spec fn conda_folders(root: Seq<char>, last: Seq<char>) -> Seq<Seq<char>> {
    conda_pair(root, "miniconda3"@) + conda_pair(root, "Anaconda3"@) + conda_pair(root, "miniconda"@)
        + conda_pair(root, last)
}

/// Where Conda is looked for when no lookup found it (Windows).
pub open spec fn conda_fallbacks(env: ProgramEnvView) -> Seq<Seq<char>> {
    (match env.conda_exe {
        Some(v) => seq![v],
        None => seq![],
    }) + (match env.conda_prefix {
        Some(p) => seq![j2(p, "Scripts"@, "conda.exe"@, true), j2(p, "condabin"@, "conda.bat"@, true)],
        None => seq![],
    }) + conda_folders("C:\\ProgramData"@, "anaconda"@) + conda_folders("D:\\ProgramData"@, "anaconda"@)
        + (match env.local_app_data {
        Some(r) => conda_folders(r, "anaconda3"@),
        None => seq![],
    }) + (match env.user_profile {
        Some(r) => conda_folders(r, "anaconda3"@),
        None => seq![],
    })
}

/// Where Python is looked for when no lookup found it (Windows).
pub open spec fn python_fallbacks(env: ProgramEnvView) -> Seq<Seq<char>> {
    (match env.conda_prefix {
        Some(p) => seq![join_path(p, "python.exe"@, true)],
        None => seq![],
    }) + python_roots("C:\\ProgramData"@) + python_roots("D:\\ProgramData"@) + seq![
        join_path("C:\\Python313"@, "python.exe"@, true),
        join_path("C:\\Python312"@, "python.exe"@, true),
        join_path("D:\\Python313"@, "python.exe"@, true),
        join_path("D:\\Python312"@, "python.exe"@, true),
    ] + (match env.local_app_data {
        Some(r) => seq![
            join_path(j3(r, "Programs"@, "Python"@, "Python313"@, true), "python.exe"@, true),
            join_path(j3(r, "Programs"@, "Python"@, "Python312"@, true), "python.exe"@, true),
        ],
        None => seq![],
    }) + seq!["C:\\Windows\\py.exe"@]
}

pub open spec fn python_roots(root: Seq<char>) -> Seq<Seq<char>> {
    seq![
        j2(root, "miniconda3"@, "python.exe"@, true),
        j2(root, "Anaconda3"@, "python.exe"@, true),
        j2(root, "miniconda"@, "python.exe"@, true),
        j2(root, "anaconda"@, "python.exe"@, true),
    ]
}

/// Where uv is looked for when no lookup found it: `.local\bin` and
/// `.cargo\bin` of the home directory, then `uv` and `bin` of `LOCALAPPDATA`.
pub open spec fn uv_fallbacks(env: ProgramEnvView, windows: bool) -> Seq<Seq<char>> {
    let exe = if windows {
        "uv.exe"@
    } else {
        "uv"@
    };
    let home = match env.user_profile {
        Some(u) => Some(u),
        None => env.home,
    };
    (match home {
        Some(r) => seq![j3(r, ".local"@, "bin"@, exe, windows), j3(r, ".cargo"@, "bin"@, exe, windows)],
        None => seq![],
    }) + (match env.local_app_data {
        Some(r) => seq![j2(r, "uv"@, "uv.exe"@, windows), j2(r, "bin"@, "uv.exe"@, windows)],
        None => seq![],
    })
}

pub struct ProgramEnvView {
    pub conda_exe: Option<Seq<char>>,
    pub conda_prefix: Option<Seq<char>>,
    pub local_app_data: Option<Seq<char>>,
    pub user_profile: Option<Seq<char>>,
    pub home: Option<Seq<char>>,
}

impl View for ProgramEnv {
    type V = ProgramEnvView;

    open spec fn view(&self) -> ProgramEnvView {
        ProgramEnvView {
            conda_exe: opt_string_view(self.conda_exe),
            conda_prefix: opt_string_view(self.conda_prefix),
            local_app_data: opt_string_view(self.local_app_data),
            user_profile: opt_string_view(self.user_profile),
            home: opt_string_view(self.home),
        }
    }
}

/// The locations tried, in order, for a program that no lookup found: Conda
/// and Python installations on Windows, the user directories of uv anywhere.
pub open spec fn fallback_programs_of(name: Seq<char>, env: ProgramEnvView, windows: bool) -> Seq<Seq<char>> {
    if !windows && !eq_ignore_case(name, "uv"@) {
        seq![]
    } else if eq_ignore_case(name, "conda"@) {
        conda_fallbacks(env)
    } else if eq_ignore_case(name, "python"@) {
        python_fallbacks(env)
    } else if eq_ignore_case(name, "uv"@) {
        uv_fallbacks(env, windows)
    } else {
        seq![]
    }
}

fn jw(a: &Vec<char>, b: &str) -> (r: Vec<char>)
    ensures
        r@ == join_path(a@, b@, true),
{
    join_chars(a, &chars_of(b), true)
}

fn texts(parts: Vec<Vec<char>>) -> (r: Vec<String>)
    ensures
        string_views(r@) == views(parts@),
{
    let mut out: Vec<String> = Vec::new();
    let mut i: usize = 0;
    while i < parts.len()
        invariant
            i <= parts.len(),
            string_views(out@) == views(parts@).subrange(0, i as int),
        decreases parts.len() - i,
    {
        let ghost b = string_views(out@);
        out.push(to_string(&parts[i]));
        assert(string_views(out@) =~= b.push(parts@[i as int]@));
        i = i + 1;
        assert(string_views(out@) =~= views(parts@).subrange(0, i as int));
    }
    assert(views(parts@).subrange(0, parts.len() as int) =~= views(parts@));
    out
}

fn append_texts(a: &mut Vec<String>, b: Vec<String>)
    ensures
        string_views(final(a)@) == string_views(old(a)@) + string_views(b@),
{
    let mut b = b;
    let ghost bv = string_views(b@);
    let ghost av = string_views(a@);
    a.append(&mut b);
    assert(string_views(a@) =~= av + bv);
}

fn conda_folders_exec(root: &Vec<char>, last: &str) -> (r: Vec<String>)
    ensures
        string_views(r@) == conda_folders(root@, last@),
{
    let mut v: Vec<Vec<char>> = Vec::new();
    let a = jw(root, "miniconda3");
    let b = jw(root, "Anaconda3");
    let c = jw(root, "miniconda");
    let d = jw(root, last);
    v.push(jw(&jw(&a, "Scripts"), "conda.exe"));
    v.push(jw(&jw(&a, "condabin"), "conda.bat"));
    v.push(jw(&jw(&b, "Scripts"), "conda.exe"));
    v.push(jw(&jw(&b, "condabin"), "conda.bat"));
    v.push(jw(&jw(&c, "Scripts"), "conda.exe"));
    v.push(jw(&jw(&c, "condabin"), "conda.bat"));
    v.push(jw(&jw(&d, "Scripts"), "conda.exe"));
    v.push(jw(&jw(&d, "condabin"), "conda.bat"));
    assert(views(v@) =~= conda_folders(root@, last@));
    texts(v)
}

fn conda_fallbacks_exec(env: &ProgramEnv) -> (r: Vec<String>)
    ensures
        string_views(r@) == conda_fallbacks(env@),
{
    let mut r: Vec<String> = Vec::new();
    match &env.conda_exe {
        Some(v) => r.push(v.clone()),
        None => {},
    }
    let ghost s1 = string_views(r@);
    assert(s1 =~= (match env@.conda_exe {
        Some(v) => seq![v],
        None => seq![],
    }));
    let mut p: Vec<Vec<char>> = Vec::new();
    match &env.conda_prefix {
        Some(x) => {
            let pc = chars_of(x.as_str());
            p.push(jw(&jw(&pc, "Scripts"), "conda.exe"));
            p.push(jw(&jw(&pc, "condabin"), "conda.bat"));
        },
        None => {},
    }
    assert(views(p@) =~= (match env@.conda_prefix {
        Some(p) => seq![j2(p, "Scripts"@, "conda.exe"@, true), j2(p, "condabin"@, "conda.bat"@, true)],
        None => seq![],
    }));
    append_texts(&mut r, texts(p));
    append_texts(&mut r, conda_folders_exec(&chars_of("C:\\ProgramData"), "anaconda"));
    append_texts(&mut r, conda_folders_exec(&chars_of("D:\\ProgramData"), "anaconda"));
    let l = match &env.local_app_data {
        Some(x) => conda_folders_exec(&chars_of(x.as_str()), "anaconda3"),
        None => Vec::new(),
    };
    assert(string_views(l@) =~= (match env@.local_app_data {
        Some(r) => conda_folders(r, "anaconda3"@),
        None => seq![],
    }));
    append_texts(&mut r, l);
    let u = match &env.user_profile {
        Some(x) => conda_folders_exec(&chars_of(x.as_str()), "anaconda3"),
        None => Vec::new(),
    };
    assert(string_views(u@) =~= (match env@.user_profile {
        Some(r) => conda_folders(r, "anaconda3"@),
        None => seq![],
    }));
    append_texts(&mut r, u);
    r
}

#[verifier::rlimit(40)]
fn python_fallbacks_exec(env: &ProgramEnv) -> (r: Vec<String>)
    ensures
        string_views(r@) == python_fallbacks(env@),
{
    let mut v: Vec<Vec<char>> = Vec::new();
    match &env.conda_prefix {
        Some(p) => v.push(jw(&chars_of(p.as_str()), "python.exe")),
        None => {},
    }
    let ghost s1 = views(v@);
    let c = chars_of("C:\\ProgramData");
    let d = chars_of("D:\\ProgramData");
    v.push(jw(&jw(&c, "miniconda3"), "python.exe"));
    v.push(jw(&jw(&c, "Anaconda3"), "python.exe"));
    v.push(jw(&jw(&c, "miniconda"), "python.exe"));
    v.push(jw(&jw(&c, "anaconda"), "python.exe"));
    v.push(jw(&jw(&d, "miniconda3"), "python.exe"));
    v.push(jw(&jw(&d, "Anaconda3"), "python.exe"));
    v.push(jw(&jw(&d, "miniconda"), "python.exe"));
    v.push(jw(&jw(&d, "anaconda"), "python.exe"));
    v.push(jw(&chars_of("C:\\Python313"), "python.exe"));
    v.push(jw(&chars_of("C:\\Python312"), "python.exe"));
    v.push(jw(&chars_of("D:\\Python313"), "python.exe"));
    v.push(jw(&chars_of("D:\\Python312"), "python.exe"));
    let ghost s2 = views(v@);
    match &env.local_app_data {
        Some(l) => {
            let lc = chars_of(l.as_str());
            v.push(jw(&jw(&jw(&jw(&lc, "Programs"), "Python"), "Python313"), "python.exe"));
            v.push(jw(&jw(&jw(&jw(&lc, "Programs"), "Python"), "Python312"), "python.exe"));
        },
        None => {},
    }
    let ghost s3 = views(v@);
    v.push(chars_of("C:\\Windows\\py.exe"));
    assert(views(v@) =~= python_fallbacks(env@));
    texts(v)
}

#[verifier::rlimit(40)]
fn uv_fallbacks_exec(env: &ProgramEnv, windows: bool) -> (r: Vec<String>)
    ensures
        string_views(r@) == uv_fallbacks(env@, windows),
{
    let exe = if windows {
        "uv.exe"
    } else {
        "uv"
    };
    let home = match &env.user_profile {
        Some(u) => Some(u),
        None => env.home.as_ref(),
    };
    let mut v: Vec<Vec<char>> = Vec::new();
    match home {
        Some(h) => {
            let hc = chars_of(h.as_str());
            v.push(join_chars(&join_chars(&join_chars(&hc, &chars_of(".local"), windows), &chars_of("bin"), windows), &chars_of(exe), windows));
            v.push(join_chars(&join_chars(&join_chars(&hc, &chars_of(".cargo"), windows), &chars_of("bin"), windows), &chars_of(exe), windows));
        },
        None => {},
    }
    match &env.local_app_data {
        Some(l) => {
            let lc = chars_of(l.as_str());
            v.push(join_chars(&join_chars(&lc, &chars_of("uv"), windows), &chars_of("uv.exe"), windows));
            v.push(join_chars(&join_chars(&lc, &chars_of("bin"), windows), &chars_of("uv.exe"), windows));
        },
        None => {},
    }
    assert(views(v@) =~= uv_fallbacks(env@, windows));
    texts(v)
}

/// The locations tried, in order, for a program that no lookup found.
pub fn fallback_programs(name: &str, env: &ProgramEnv, windows: bool) -> (r: Vec<String>)
    ensures
        string_views(r@) == fallback_programs_of(name@, env@, windows),
{
    let n = chars_of(name);
    let is_uv = eq_ignore_case_exec(&n, &chars_of("uv"));
    if !windows && !is_uv {
        let r: Vec<String> = Vec::new();
        assert(string_views(r@) =~= Seq::<Seq<char>>::empty());
        return r;
    }
    if eq_ignore_case_exec(&n, &chars_of("conda")) {
        return conda_fallbacks_exec(env);
    }
    if eq_ignore_case_exec(&n, &chars_of("python")) {
        return python_fallbacks_exec(env);
    }
    if is_uv {
        return uv_fallbacks_exec(env, windows);
    }
    let r: Vec<String> = Vec::new();
    assert(string_views(r@) =~= Seq::<Seq<char>>::empty());
    r
}

/// The programs running now, each process id once, and (as ghost state) the
/// starts and ends that the registry was told of.
pub struct ProcessRegistry {
    entries: Vec<ActiveProcess>,
    history: Ghost<Seq<RunRecord>>,
}

/// What the registry was told: a program started (its entry), or the
/// program with this process id ended.
pub enum RunRecord {
    Started(ProcessView),
    Ended(u32),
}

pub type ProcessView = (u32, Seq<char>, u64);

pub open spec fn process_view(p: ActiveProcess) -> ProcessView {
    (p.pid, p.command@, p.started_at)
}

/// The test "the entry is not process `pid`".
pub open spec fn other_than(pid: u32) -> spec_fn(ProcessView) -> bool {
    |e: ProcessView| e.0 != pid
}

/// Each process id occurs once.
pub open spec fn unique_pids(s: Seq<ProcessView>) -> bool {
    forall|i: int, j: int| 0 <= i < j < s.len() ==> #[trigger] s[i].0 != #[trigger] s[j].0
}

/// The process id a record is about.
pub open spec fn record_pid(r: RunRecord) -> u32 {
    match r {
        RunRecord::Started(e) => e.0,
        RunRecord::Ended(p) => p,
    }
}

/// The entries after one record: a start replaces what was held for its
/// process id, an end forgets it.
pub open spec fn replay_step(s: Seq<ProcessView>, r: RunRecord) -> Seq<ProcessView> {
    match r {
        RunRecord::Started(e) => s.filter(other_than(e.0)).push(e),
        RunRecord::Ended(p) => s.filter(other_than(p)),
    }
}

/// The entries after the records, from an empty registry.
pub open spec fn replay(h: Seq<RunRecord>) -> Seq<ProcessView>
    decreases h.len(),
{
    if h.len() == 0 {
        seq![]
    } else {
        replay_step(replay(h.drop_last()), h.last())
    }
}

/// Entry `e` stands for a program that was started and has not ended: its
/// start is recorded, and no later record is about its process id.
pub open spec fn running_in(h: Seq<RunRecord>, e: ProcessView) -> bool {
    exists|i: int|
        0 <= i < h.len() && #[trigger] h[i] == RunRecord::Started(e) && forall|j: int|
            i < j < h.len() ==> record_pid(#[trigger] h[j]) != e.0
}

/// Every recorded start was followed by the end of that process.
pub open spec fn all_ended(h: Seq<RunRecord>) -> bool {
    forall|i: int|
        0 <= i < h.len() && (#[trigger] h[i]) is Started ==> exists|j: int|
            i < j < h.len() && #[trigger] h[j] == RunRecord::Ended(record_pid(h[i]))
}

impl View for ProcessRegistry {
    type V = Seq<ProcessView>;

    closed spec fn view(&self) -> Seq<ProcessView> {
        self.entries@.map_values(|p: ActiveProcess| process_view(p))
    }
}

proof fn lemma_filter_other_unique(s: Seq<ProcessView>, pid: u32)
    requires
        unique_pids(s),
    ensures
        unique_pids(s.filter(other_than(pid))),
        forall|i: int| 0 <= i < s.filter(other_than(pid)).len() ==> #[trigger] s.filter(other_than(pid))[i].0 != pid,
    decreases s.len(),
{
    let f = other_than(pid);
    if s.len() == 0 {
        assert(s.filter(f) =~= Seq::<ProcessView>::empty()) by {
            reveal(Seq::filter);
        }
    } else {
        let q = s.drop_last();
        assert(s =~= q.push(s.last()));
        assert(unique_pids(q)) by {
            assert forall|i: int, j: int| 0 <= i < j < q.len() implies #[trigger] q[i].0 != #[trigger] q[j].0 by {
                assert(q[i] == s[i] && q[j] == s[j]);
            }
        }
        lemma_filter_other_unique(q, pid);
        q.lemma_filter_push(s.last(), f);
        if f(s.last()) {
            let r = q.filter(f).push(s.last());
            assert forall|i: int, j: int| 0 <= i < j < r.len() implies #[trigger] r[i].0 != #[trigger] r[j].0 by {
                if j == r.len() - 1 {
                    let e = q.filter(f)[i];
                    assert(q.filter(f).contains(e));
                    q.lemma_filter_contains_rev(f, e);
                    let k = choose|k: int| 0 <= k < q.len() && q[k] == e;
                    assert(s[k] == e);
                    assert(s[s.len() - 1] == s.last());
                }
            }
        }
    }
}

impl ProcessRegistry {
    /// Each process id occurs once, and the entries are what the recorded
    /// starts and ends leave.
    pub closed spec fn wf(&self) -> bool {
        unique_pids(self@) && self@ == replay(self.history@)
    }

    /// The starts and ends the registry was told of, oldest first.
    pub closed spec fn history(&self) -> Seq<RunRecord> {
        self.history@
    }

    /// A well-formed registry holds exactly the programs that were started
    /// and have not ended since; when every start was followed by its end,
    /// it holds nothing.
    pub proof fn lemma_holds_running(&self)
        requires
            self.wf(),
        ensures
            forall|e: ProcessView| self@.contains(e) <==> running_in(self.history(), e),
            all_ended(self.history()) ==> self@.len() == 0,
    {
        law_registry_holds_running_calls(self.history@);
    }

    /// A well-formed registry holds each process id once.
    pub proof fn lemma_wf_unique(&self)
        requires
            self.wf(),
        ensures
            unique_pids(self@),
    {
    }

    pub fn new() -> (r: ProcessRegistry)
        ensures
            r.wf(),
            r@ == Seq::<ProcessView>::empty(),
            r.history() == Seq::<RunRecord>::empty(),
    {
        let r = ProcessRegistry { entries: Vec::new(), history: Ghost(Seq::empty()) };
        assert(r@ =~= Seq::<ProcessView>::empty());
        r
    }

    /// Forgets process `pid` (`HashMap::remove`).
    pub fn remove(&mut self, pid: u32)
        requires
            old(self).wf(),
        ensures
            final(self).wf(),
            final(self)@ == old(self)@.filter(other_than(pid)),
            final(self).history() == old(self).history().push(RunRecord::Ended(pid)),
    {
        proof {
            assert(old(self).history@.push(RunRecord::Ended(pid)).drop_last() =~= old(self).history@);
        }
        self.forget(pid);
        self.history = Ghost(self.history@.push(RunRecord::Ended(pid)));
    }

    /// Drops the entry of `pid`; the history is left as it is.
    fn forget(&mut self, pid: u32)
        requires
            unique_pids(old(self)@),
        ensures
            unique_pids(final(self)@),
            final(self)@ == old(self)@.filter(other_than(pid)),
            final(self).history@ == old(self).history@,
    {
        let ghost s = self@;
        let mut rest: Vec<ActiveProcess> = Vec::new();
        std::mem::swap(&mut rest, &mut self.entries);
        let ghost src = rest@;
        assert(src.map_values(|p: ActiveProcess| process_view(p)) == s);
        let mut n: usize = 0;
        assert(rest@ =~= src.subrange(0, src.len() as int));
        assert(src.len() == rest.len());
        assert(s.subrange(0, 0).filter(other_than(pid)) =~= Seq::<ProcessView>::empty()) by {
            reveal(Seq::filter);
        }
        assert(self@ =~= Seq::<ProcessView>::empty());
        while rest.len() > 0
            invariant
                n + rest.len() == src.len(),
                src.len() <= usize::MAX,
                rest@ == src.subrange(n as int, src.len() as int),
                s == src.map_values(|p: ActiveProcess| process_view(p)),
                self@ == s.subrange(0, n as int).filter(other_than(pid)),
                self.history@ == old(self).history@,
            decreases rest.len(),
        {
            let x = rest.remove(0);
            assert(x == src[n as int]);
            assert(process_view(x) == s[n as int]);
            proof {
                assert(s.subrange(0, n + 1) =~= s.subrange(0, n as int).push(s[n as int]));
                s.subrange(0, n as int).lemma_filter_push(s[n as int], other_than(pid));
            }
            if x.pid != pid {
                let ghost b = self@;
                self.entries.push(x);
                assert(self@ =~= b.push(s[n as int]));
            }
            n = n + 1;
            assert(rest@ =~= src.subrange(n as int, src.len() as int));
        }
        assert(s.subrange(0, n as int) =~= s);
        proof {
            lemma_filter_other_unique(s, pid);
        }
    }

    /// Records a started program, replacing what was recorded for the same id
    /// (`HashMap::insert`).
    pub fn insert(&mut self, pid: u32, command: String, started_at: u64)
        requires
            old(self).wf(),
        ensures
            final(self).wf(),
            final(self)@ == old(self)@.filter(other_than(pid)).push((pid, command@, started_at)),
            final(self).history() == old(self).history().push(RunRecord::Started((pid, command@, started_at))),
    {
        let ghost e = (pid, command@, started_at);
        proof {
            assert(old(self).history@.push(RunRecord::Started(e)).drop_last() =~= old(self).history@);
        }
        self.forget(pid);
        let ghost b = self@;
        proof {
            lemma_filter_other_unique(old(self)@, pid);
        }
        self.entries.push(ActiveProcess { pid, command, started_at });
        assert(self@ =~= b.push(e));
        self.history = Ghost(self.history@.push(RunRecord::Started(e)));
        proof {
            law_insert_then_listed(old(self)@, pid, command@, started_at);
        }
    }

    /// Records that program `program` started with `args` as process `pid`:
    /// its entry shows the command line as `command_line` writes it.
    pub fn start(&mut self, pid: u32, program: &str, args: &Vec<String>, started_at: u64)
        requires
            old(self).wf(),
        ensures
            final(self).wf(),
            final(self).history() == old(self).history().push(
                RunRecord::Started((pid, command_line_of(program@, string_views(args@)), started_at)),
            ),
            final(self)@ == old(self)@.filter(other_than(pid)).push(
                (pid, command_line_of(program@, string_views(args@)), started_at),
            ),
    {
        let c = command_line(program, args);
        self.insert(pid, c, started_at);
    }
}

/// Replaying the records keeps each process id once.
proof fn lemma_replay_unique(h: Seq<RunRecord>)
    ensures
        unique_pids(replay(h)),
    decreases h.len(),
{
    if h.len() > 0 {
        lemma_replay_unique(h.drop_last());
        let s = replay(h.drop_last());
        match h.last() {
            RunRecord::Started(e) => {
                law_insert_then_listed(s, e.0, e.1, e.2);
            },
            RunRecord::Ended(p) => {
                lemma_filter_other_unique(s, p);
            },
        }
    }
}

/// An entry is kept by the filter "not process `p`" just when it was there
/// and is not about `p`.
proof fn lemma_filter_other_contains(s: Seq<ProcessView>, p: u32, e: ProcessView)
    ensures
        s.filter(other_than(p)).contains(e) <==> s.contains(e) && e.0 != p,
{
    let f = other_than(p);
    if s.filter(f).contains(e) {
        s.lemma_filter_contains_rev(f, e);
        let k = choose|k: int| 0 <= k < s.filter(f).len() && s.filter(f)[k] == e;
        broadcast use vstd::seq_lib::group_filter_ensures;
        assert(f(s.filter(f)[k]));
    }
    if s.contains(e) && e.0 != p {
        let k = choose|k: int| 0 <= k < s.len() && s[k] == e;
        s.lemma_filter_contains(f, k);
    }
}

proof fn lemma_push_contains(s: Seq<ProcessView>, x: ProcessView, e: ProcessView)
    ensures
        s.push(x).contains(e) <==> s.contains(e) || e == x,
{
    if s.push(x).contains(e) {
        let k = choose|k: int| 0 <= k < s.push(x).len() && s.push(x)[k] == e;
        if k < s.len() {
            assert(s[k] == e);
        }
    }
    if s.contains(e) {
        let k = choose|k: int| 0 <= k < s.len() && s[k] == e;
        assert(s.push(x)[k] == e);
    }
    if e == x {
        assert(s.push(x)[s.len() as int] == e);
    }
}

/// One more record: whether `e` is held after it, given that before it `e`
/// was held just when it was running.
proof fn lemma_replay_push(h0: Seq<RunRecord>, r: RunRecord, e: ProcessView)
    requires
        replay(h0).contains(e) <==> running_in(h0, e),
    ensures
        replay(h0.push(r)).contains(e) <==> running_in(h0.push(r), e),
{
    let h = h0.push(r);
    let last = h.len() - 1;
    assert(h.drop_last() =~= h0);
    assert(h[last] == r);
    let s = replay(h0);
    assert(replay(h) == replay_step(s, r));
    // Is e held after r?
    let held = match r {
        RunRecord::Started(x) => (s.contains(e) && e.0 != x.0) || e == x,
        RunRecord::Ended(p) => s.contains(e) && e.0 != p,
    };
    match r {
        RunRecord::Started(x) => {
            lemma_filter_other_contains(s, x.0, e);
            lemma_push_contains(s.filter(other_than(x.0)), x, e);
        },
        RunRecord::Ended(p) => {
            lemma_filter_other_contains(s, p, e);
        },
    }
    assert(replay(h).contains(e) == held);
    if record_pid(r) != e.0 {
        // a record about another process changes nothing for e
        assert(r != RunRecord::Started(e));
        if running_in(h, e) {
            let i = choose|i: int|
                0 <= i < h.len() && #[trigger] h[i] == RunRecord::Started(e) && forall|j: int|
                    i < j < h.len() ==> record_pid(#[trigger] h[j]) != e.0;
            assert(i != last);
            assert(h0[i] == h[i]);
            assert forall|j: int| i < j < h0.len() implies record_pid(#[trigger] h0[j]) != e.0 by {
                assert(h0[j] == h[j]);
            }
            assert(running_in(h0, e));
        }
        if running_in(h0, e) {
            let i = choose|i: int|
                0 <= i < h0.len() && #[trigger] h0[i] == RunRecord::Started(e) && forall|j: int|
                    i < j < h0.len() ==> record_pid(#[trigger] h0[j]) != e.0;
            assert(h[i] == h0[i]);
            assert forall|j: int| i < j < h.len() implies record_pid(#[trigger] h[j]) != e.0 by {
                if j < last {
                    assert(h[j] == h0[j]);
                }
            }
            assert(running_in(h, e));
        }
        assert(running_in(h, e) == running_in(h0, e));
        assert(held == s.contains(e));
    } else {
        // a record about e's process id decides alone
        if running_in(h, e) {
            let i = choose|i: int|
                0 <= i < h.len() && #[trigger] h[i] == RunRecord::Started(e) && forall|j: int|
                    i < j < h.len() ==> record_pid(#[trigger] h[j]) != e.0;
            if i < last {
                assert(record_pid(h[last]) != e.0);
            }
            assert(r == RunRecord::Started(e));
        }
        if r == RunRecord::Started(e) {
            assert forall|j: int| last < j < h.len() implies record_pid(#[trigger] h[j]) != e.0 by {}
            assert(h[last] == RunRecord::Started(e));
            assert(running_in(h, e));
        }
        assert(running_in(h, e) == (r == RunRecord::Started(e)));
        assert(held == (r == RunRecord::Started(e)));
    }
}

/// What the process registry holds: exactly the programs whose start was
/// recorded and whose process id no later record is about (so nothing, once
/// every start was followed by its end), each process id once.
pub proof fn law_registry_holds_running_calls(h: Seq<RunRecord>)
    ensures
        unique_pids(replay(h)),
        forall|e: ProcessView| replay(h).contains(e) <==> running_in(h, e),
        all_ended(h) ==> replay(h).len() == 0,
    decreases h.len(),
{
    broadcast use vstd::seq_lib::group_filter_ensures;
    lemma_replay_unique(h);
    if h.len() == 0 {
        assert forall|e: ProcessView| replay(h).contains(e) <==> running_in(h, e) by {
            assert(replay(h) =~= Seq::<ProcessView>::empty());
        }
    } else {
        let h0 = h.drop_last();
        let r = h.last();
        let last = h.len() - 1;
        assert(h[last] == r);
        law_registry_holds_running_calls(h0);
        let s = replay(h0);
        assert forall|e: ProcessView| replay(h).contains(e) <==> running_in(h, e) by {
            lemma_replay_push(h0, r, e);
            assert(h0.push(r) =~= h);
        }
        if all_ended(h) && replay(h).len() > 0 {
            let e = replay(h)[0];
            assert(replay(h).contains(e));
            assert(running_in(h, e));
            let i = choose|i: int|
                0 <= i < h.len() && #[trigger] h[i] == RunRecord::Started(e) && forall|j: int|
                    i < j < h.len() ==> record_pid(#[trigger] h[j]) != e.0;
            assert(h[i] is Started);
            let j = choose|j: int| i < j < h.len() && #[trigger] h[j] == RunRecord::Ended(record_pid(h[i]));
            assert(record_pid(h[j]) == e.0);
        }
    }
}

/// The programs running now: every recorded entry, in the registry's order,
/// no process id twice.
pub fn active_processes(registry: &ProcessRegistry) -> (r: Vec<ActiveProcess>)
    ensures
        r@.map_values(|p: ActiveProcess| process_view(p)) == registry@,
        registry.wf() ==> unique_pids(r@.map_values(|p: ActiveProcess| process_view(p))),
        registry.wf() ==> forall|e: ProcessView|
            r@.map_values(|p: ActiveProcess| process_view(p)).contains(e) <==> running_in(registry.history(), e),
        registry.wf() && all_ended(registry.history()) ==> r.len() == 0,
{
    proof {
        if registry.wf() {
            registry.lemma_holds_running();
        }
    }
    let mut out: Vec<ActiveProcess> = Vec::new();
    let mut i: usize = 0;
    while i < registry.entries.len()
        invariant
            i <= registry.entries.len(),
            out@.map_values(|p: ActiveProcess| process_view(p)) == registry.entries@.subrange(
                0,
                i as int,
            ).map_values(|p: ActiveProcess| process_view(p)),
        decreases registry.entries.len() - i,
    {
        let e = &registry.entries[i];
        let ghost b = out@.map_values(|p: ActiveProcess| process_view(p));
        let c = e.command.clone();
        out.push(ActiveProcess { pid: e.pid, command: c, started_at: e.started_at });
        assert(out@.map_values(|p: ActiveProcess| process_view(p)) =~= b.push(process_view(registry.entries@[i as int])));
        i = i + 1;
        assert(out@.map_values(|p: ActiveProcess| process_view(p)) =~= registry.entries@.subrange(
            0,
            i as int,
        ).map_values(|p: ActiveProcess| process_view(p)));
    }
    assert(registry.entries@.subrange(0, registry.entries.len() as int) =~= registry.entries@);
    out
}

/// After a program is recorded, the registry lists it, and it is the only
/// entry with its process id.
pub proof fn law_insert_then_listed(s: Seq<ProcessView>, pid: u32, command: Seq<char>, started_at: u64)
    requires
        unique_pids(s),
    ensures
        s.filter(other_than(pid)).push((pid, command, started_at)).contains((pid, command, started_at)),
        forall|i: int|
            0 <= i < s.filter(other_than(pid)).push((pid, command, started_at)).len() && (#[trigger] s.filter(
                other_than(pid),
            ).push((pid, command, started_at))[i]).0 == pid ==> s.filter(other_than(pid)).push(
                (pid, command, started_at),
            )[i] == (pid, command, started_at),
        unique_pids(s.filter(other_than(pid)).push((pid, command, started_at))),
{
    let t = s.filter(other_than(pid)).push((pid, command, started_at));
    lemma_filter_other_unique(s, pid);
    assert(t[t.len() - 1] == (pid, command, started_at));
    assert forall|a: int, b: int| 0 <= a < b < t.len() implies #[trigger] t[a].0 != #[trigger] t[b].0 by {
        if b < t.len() - 1 {
            assert(t[a] == s.filter(other_than(pid))[a]);
            assert(t[b] == s.filter(other_than(pid))[b]);
        } else {
            assert(t[a] == s.filter(other_than(pid))[a]);
        }
    }
}

/// After a program is forgotten, no entry has its process id, and every
/// other entry is still there.
pub proof fn law_remove_then_absent(s: Seq<ProcessView>, pid: u32)
    requires
        unique_pids(s),
    ensures
        forall|i: int| 0 <= i < s.filter(other_than(pid)).len() ==> #[trigger] s.filter(other_than(pid))[i].0 != pid,
        forall|e: ProcessView| #[trigger] s.contains(e) && e.0 != pid ==> s.filter(other_than(pid)).contains(e),
{
    lemma_filter_other_unique(s, pid);
    assert forall|e: ProcessView| #[trigger] s.contains(e) && e.0 != pid implies s.filter(other_than(pid)).contains(e) by {
        let k = choose|k: int| 0 <= k < s.len() && s[k] == e;
        s.lemma_filter_contains(other_than(pid), k);
    }
}

} // verus!
