//! Conda environments: names, paths, command lines and the reading of Conda's answers.
use vstd::prelude::*;
use crate::conda_list::{CondaEnvironmentList, MetaView};
use crate::domain::{opt_string_view, CondaEnvironment, OperationResult};
use crate::path::{file_name, file_name_exec, join_path, join_chars, parent_name, parent_name_exec};
use crate::sort::{lex_lt, code_points, code_points_exec, sort_values, sorted_values, values_of};
use crate::text::{
    append, chars_of, concat, eq, eq_ignore_case, eq_ignore_case_exec, lower, lower_exec, lines,
    lines_exec, replace_all, replace_all_exec, to_string, trim, trim_exec, views,
};

verus! {

pub open spec fn string_views(v: Seq<String>) -> Seq<Seq<char>> {
    v.map_values(|s: String| s@)
}

/// The home directory from `USERPROFILE` (Windows) or `HOME`, else `.`.
pub open spec fn home_of(var: Option<Seq<char>>) -> Seq<char> {
    match var {
        Some(h) => h,
        None => "."@,
    }
}

pub fn home_dir(var: Option<String>) -> (r: String)
    ensures
        r@ == home_of(opt_string_view(var)),
{
    match var {
        Some(h) => h,
        None => ".".to_owned(),
    }
}

/// Characters that cannot stand in a Windows file name.
pub open spec fn is_unsafe_file_char(c: char) -> bool {
    c == '<' || c == '>' || c == ':' || c == '/' || c == '|' || c == '?' || c == '*' || c == '"'
}

/// The trimmed name with unsafe characters replaced by `_`, or
/// `conda-environment` when nothing is left.
pub open spec fn safe_file_name_of(name: Seq<char>) -> Seq<char> {
    let v = trim(name).map_values(|c: char| if is_unsafe_file_char(c) {
        '_'
    } else {
        c
    });
    if v.len() == 0 {
        "conda-environment"@
    } else {
        v
    }
}

pub fn safe_file_name(name: &str) -> (r: String)
    ensures
        r@ == safe_file_name_of(name@),
{
    let t = trim_exec(&chars_of(name));
    let mut v: Vec<char> = Vec::new();
    let mut i: usize = 0;
    while i < t.len()
        invariant
            i <= t.len(),
            v@ == t@.subrange(0, i as int).map_values(|c: char| if is_unsafe_file_char(c) {
                '_'
            } else {
                c
            }),
        decreases t.len() - i,
    {
        let c = t[i];
        let d = if c == '<' || c == '>' || c == ':' || c == '/' || c == '|' || c == '?' || c == '*'
            || c == '"' {
            '_'
        } else {
            c
        };
        v.push(d);
        i = i + 1;
        assert(v@ =~= t@.subrange(0, i as int).map_values(|c: char| if is_unsafe_file_char(c) {
            '_'
        } else {
            c
        }));
    }
    assert(t@.subrange(0, t.len() as int) =~= t@);
    if v.len() == 0 {
        "conda-environment".to_owned()
    } else {
        to_string(&v)
    }
}

/// `<home>/Documents/WJ Python Manager/exports`.
pub open spec fn export_directory_of(home: Seq<char>, windows: bool) -> Seq<char> {
    join_path(
        join_path(join_path(home, "Documents"@, windows), "WJ Python Manager"@, windows),
        "exports"@,
        windows,
    )
}

fn export_directory_chars(home: &Vec<char>, windows: bool) -> (r: Vec<char>)
    ensures
        r@ == export_directory_of(home@, windows),
{
    let a = join_chars(home, &chars_of("Documents"), windows);
    let b = join_chars(&a, &chars_of("WJ Python Manager"), windows);
    join_chars(&b, &chars_of("exports"), windows)
}

/// Where exported environment files go by default.
pub fn default_export_directory(home: &str, windows: bool) -> (r: String)
    ensures
        r@ == export_directory_of(home@, windows),
{
    to_string(&export_directory_chars(&chars_of(home), windows))
}

/// The index after the last separator is not moved by a tail without separators.
proof fn lemma_last_sep_end_plain_tail(a: Seq<char>, b: Seq<char>)
    requires
        forall|i: int| 0 <= i < b.len() ==> !#[trigger] crate::path::is_sep(b[i], false),
    ensures
        crate::process::last_sep_end(a + b, false) == crate::process::last_sep_end(a, false),
    decreases b.len(),
{
    if b.len() == 0 {
        assert(a + b =~= a);
    } else {
        assert((a + b).last() == b[b.len() - 1]);
        assert((a + b).drop_last() =~= a + b.drop_last());
        lemma_last_sep_end_plain_tail(a, b.drop_last());
    }
}

/// Off Windows, the default export file lies directly in the export
/// directory: that directory is the file's parent, whatever the name.
pub proof fn law_export_file_in_export_directory(home: Seq<char>, name: Seq<char>)
    ensures
        crate::process::parent_text(
            join_path(export_directory_of(home, false), safe_file_name_of(name) + ".yml"@, false),
            false,
        ) == Some(export_directory_of(home, false)),
{
    reveal_strlit("exports");
    reveal_strlit(".yml");
    reveal_strlit("conda-environment");
    reveal_strlit("/");
    let dir = export_directory_of(home, false);
    let b = join_path(join_path(home, "Documents"@, false), "WJ Python Manager"@, false);
    assert(dir == b + "exports"@ || dir == b + "/"@ + "exports"@);
    assert(dir.len() >= 7 && dir.last() == 's');
    let safe = safe_file_name_of(name);
    let f = safe + ".yml"@;
    assert forall|i: int| 0 <= i < f.len() implies !#[trigger] crate::path::is_sep(f[i], false) by {
        if i < safe.len() {
            let v = trim(name).map_values(|c: char| if is_unsafe_file_char(c) {
                '_'
            } else {
                c
            });
            if v.len() > 0 {
                assert(safe[i] == v[i]);
            }
        }
    }
    assert(f.len() > 0 && f.last() == 'l');
    let s = dir + "/"@ + f;
    assert(join_path(dir, f, false) == s);
    assert(s.last() == 'l');
    assert(crate::process::strip_trailing_seps(s, false) == s);
    assert(crate::process::root_len(s, false) <= 1);
    lemma_last_sep_end_plain_tail(dir + "/"@, f);
    assert(s == (dir + "/"@) + f);
    assert((dir + "/"@).last() == '/');
    assert(crate::process::last_sep_end(dir + "/"@, false) == dir.len() + 1);
    assert(s.subrange(0, dir.len() + 1 as int) =~= dir + "/"@);
    assert((dir + "/"@).drop_last() =~= dir);
    assert(crate::process::strip_trailing_seps(dir + "/"@, false) == crate::process::strip_trailing_seps(dir, false));
    assert(crate::process::strip_trailing_seps(dir, false) == dir);
}

/// The default export file of an environment: `<exports>/<safe name>.yml`.
pub fn default_export_file(home: &str, name: &str, windows: bool) -> (r: String)
    ensures
        r@ == join_path(export_directory_of(home@, windows), safe_file_name_of(name@) + ".yml"@, windows),
{
    let dir = export_directory_chars(&chars_of(home), windows);
    let file = concat(&chars_of(safe_file_name(name).as_str()), &chars_of(".yml"));
    to_string(&join_chars(&dir, &file, windows))
}

/// The interpreter of a Conda prefix: `python.exe` on Windows, `bin/python` elsewhere.
pub open spec fn conda_python_of(prefix: Seq<char>, windows: bool) -> Seq<char> {
    if windows {
        join_path(prefix, "python.exe"@, true)
    } else {
        join_path(join_path(prefix, "bin"@, false), "python"@, false)
    }
}

pub fn python_executable(prefix: &str, windows: bool) -> (r: String)
    ensures
        r@ == conda_python_of(prefix@, windows),
{
    let p = chars_of(prefix);
    if windows {
        to_string(&join_chars(&p, &chars_of("python.exe"), true))
    } else {
        to_string(&join_chars(&join_chars(&p, &chars_of("bin"), false), &chars_of("python"), false))
    }
}

/// The package cache directories to try, in order.
pub open spec fn cache_candidates_of(
    windows: bool,
    local_app_data: Option<Seq<char>>,
    temp_dir: Seq<char>,
    home: Seq<char>,
) -> Seq<Seq<char>> {
    if windows {
        let tmp = join_path(join_path(temp_dir, "WJ Python Manager"@, true), "conda-pkgs"@, true);
        match local_app_data {
            Some(l) => seq![join_path(join_path(l, "conda"@, true), "pkgs"@, true), tmp],
            None => seq![tmp],
        }
    } else {
        seq![
            join_path(join_path(home, ".conda"@, false), "pkgs"@, false),
            join_path(join_path(temp_dir, "wj-python-manager"@, false), "conda-pkgs"@, false),
        ]
    }
}

pub fn conda_package_cache_candidates(
    windows: bool,
    local_app_data: Option<String>,
    temp_dir: &str,
    home: &str,
) -> (r: Vec<String>)
    ensures
        string_views(r@) == cache_candidates_of(
            windows,
            opt_string_view(local_app_data),
            temp_dir@,
            home@,
        ),
{
    let t = chars_of(temp_dir);
    let mut r: Vec<String> = Vec::new();
    if windows {
        let tmp = join_chars(&join_chars(&t, &chars_of("WJ Python Manager"), true), &chars_of("conda-pkgs"), true);
        match local_app_data {
            Some(l) => {
                r.push(to_string(&join_chars(&join_chars(&chars_of(l.as_str()), &chars_of("conda"), true), &chars_of("pkgs"), true)));
            },
            None => {},
        }
        r.push(to_string(&tmp));
    } else {
        r.push(to_string(&join_chars(&join_chars(&chars_of(home), &chars_of(".conda"), false), &chars_of("pkgs"), false)));
        r.push(to_string(&join_chars(&join_chars(&t, &chars_of("wj-python-manager"), false), &chars_of("conda-pkgs"), false)));
    }
    assert(string_views(r@) =~= cache_candidates_of(windows, opt_string_view(local_app_data), temp_dir@, home@));
    r
}

/// The message when no package cache directory could be made.
pub fn cache_directory_error(errors: &Vec<String>) -> (r: String)
    ensures
        r@ == "没有可写的 Conda 包缓存目录："@ + crate::text::join(string_views(errors@), "；"@),
{
    let mut parts: Vec<Vec<char>> = Vec::new();
    let mut i: usize = 0;
    while i < errors.len()
        invariant
            i <= errors.len(),
            views(parts@) == string_views(errors@).subrange(0, i as int),
        decreases errors.len() - i,
    {
        let ghost before = views(parts@);
        parts.push(chars_of(errors[i].as_str()));
        assert(views(parts@) =~= before.push(errors@[i as int]@));
        i = i + 1;
        assert(views(parts@) =~= string_views(errors@).subrange(0, i as int));
    }
    assert(string_views(errors@).subrange(0, errors.len() as int) =~= string_views(errors@));
    to_string(&concat(&chars_of("没有可写的 Conda 包缓存目录："), &crate::text::join_exec(&parts, &chars_of("；"))))
}

/// `python --version` read as the Conda page shows it: the first line of
/// stdout then stderr, trimmed, with `Python ` removed; `未知` when there is none.
pub open spec fn conda_python_version_of(stdout: Seq<char>, stderr: Seq<char>) -> Seq<char> {
    let all = lines(stdout) + lines(stderr);
    let first = if all.len() > 0 {
        all[0]
    } else {
        "未知"@
    };
    replace_all(trim(first), "Python "@, seq![])
}

pub fn conda_python_version(stdout: &str, stderr: &str) -> (r: String)
    ensures
        r@ == conda_python_version_of(stdout@, stderr@),
{
    let out = lines_exec(&chars_of(stdout));
    let err = lines_exec(&chars_of(stderr));
    let ghost all = lines(stdout@) + lines(stderr@);
    let first = if out.len() > 0 {
        assert(all[0] == out@[0]@);
        out[0].clone()
    } else if err.len() > 0 {
        assert(all[0] == err@[0]@);
        err[0].clone()
    } else {
        chars_of("未知")
    };
    let empty: Vec<char> = Vec::new();
    assert(empty@ =~= Seq::<char>::empty());
    to_string(&replace_all_exec(&trim_exec(&first), &chars_of("Python "), &empty))
}

/// One environment of the list before its interpreter and packages are read.
pub struct EnvironmentEntry {
    pub name: String,
    pub prefix: String,
    pub active: bool,
}

/// The details given for a prefix (the first entry with that key).
pub open spec fn details_get(ds: Seq<(Seq<char>, MetaView)>, key: Seq<char>) -> Option<MetaView>
    decreases ds.len(),
{
    if ds.len() == 0 {
        None
    } else if ds[0].0 == key {
        Some(ds[0].1)
    } else {
        details_get(ds.drop_first(), key)
    }
}

/// The name of a prefix without a name in the details: the last directory
/// when the prefix lies in an `envs` directory, else `base`.
pub open spec fn derived_name(prefix: Seq<char>, windows: bool) -> Seq<char> {
    match parent_name(prefix, windows) {
        Some(p) => if eq_ignore_case(p, "envs"@) {
            match file_name(prefix, windows) {
                Some(f) => f,
                None => "base"@,
            }
        } else {
            "base"@
        },
        None => "base"@,
    }
}

/// The entry of one prefix: its name and whether it is the active one.
pub open spec fn entry_of(
    prefix: Seq<char>,
    ds: Seq<(Seq<char>, MetaView)>,
    active: Seq<char>,
    windows: bool,
) -> (Seq<char>, Seq<char>, bool) {
    let meta = details_get(ds, prefix);
    let name = match meta {
        Some((Some(n), _)) => n,
        _ => derived_name(prefix, windows),
    };
    let is_active = match meta {
        Some((_, Some(a))) => a,
        _ => eq_ignore_case(prefix, active),
    };
    (name, prefix, is_active)
}

/// The prefixes, each kept only the first time its lower-cased text occurs.
pub open spec fn first_of_each(envs: Seq<Seq<char>>) -> Seq<Seq<char>>
    decreases envs.len(),
{
    if envs.len() == 0 {
        seq![]
    } else {
        let earlier = first_of_each(envs.drop_last());
        if exists|j: int| 0 <= j < envs.len() - 1 && lower(#[trigger] envs[j]) == lower(envs.last()) {
            earlier
        } else {
            earlier.push(envs.last())
        }
    }
}

pub open spec fn entries_of(
    envs: Seq<Seq<char>>,
    ds: Seq<(Seq<char>, MetaView)>,
    active: Seq<char>,
    windows: bool,
) -> Seq<(Seq<char>, Seq<char>, bool)> {
    first_of_each(envs).map_values(|p: Seq<char>| entry_of(p, ds, active, windows))
}

pub open spec fn entry_views(v: Seq<EnvironmentEntry>) -> Seq<(Seq<char>, Seq<char>, bool)> {
    v.map_values(|e: EnvironmentEntry| (e.name@, e.prefix@, e.active))
}

fn details_get_exec(list: &CondaEnvironmentList, key: &Vec<char>) -> (r: Option<(Option<String>, Option<bool>)>)
    ensures
        match r {
            Some(m) => details_get(list@.details, key@) == Some((opt_string_view(m.0), m.1)),
            None => details_get(list@.details, key@) is None,
        },
{
    let ghost ds = list@.details;
    let mut i: usize = 0;
    assert(ds.subrange(0, ds.len() as int) =~= ds);
    while i < list.envs_details.len()
        invariant
            i <= list.envs_details.len(),
            ds == list@.details,
            details_get(ds, key@) == details_get(ds.subrange(i as int, ds.len() as int), key@),
        decreases list.envs_details.len() - i,
    {
        let ghost rest = ds.subrange(i as int, ds.len() as int);
        assert(rest.drop_first() =~= ds.subrange(i + 1, ds.len() as int));
        assert(rest[0] == (list.envs_details@[i as int].0@, list.envs_details@[i as int].1@));
        if eq(&chars_of(list.envs_details[i].0.as_str()), key) {
            let m = &list.envs_details[i].1;
            return Some((m.name.clone(), m.active));
        }
        i = i + 1;
    }
    None
}

fn derived_name_exec(prefix: &Vec<char>, windows: bool) -> (r: Vec<char>)
    ensures
        r@ == derived_name(prefix@, windows),
{
    match parent_name_exec(prefix, windows) {
        Some(p) => {
            if eq_ignore_case_exec(&p, &chars_of("envs")) {
                match file_name_exec(prefix, windows) {
                    Some(f) => f,
                    None => chars_of("base"),
                }
            } else {
                chars_of("base")
            }
        },
        None => chars_of("base"),
    }
}

/// The environments of a parsed list: one entry per prefix (compared
/// without regard to ASCII case, the first one kept), named from the details
/// or from the prefix, and active as the details say or when the prefix is
/// `active_prefix` (the value of `CONDA_PREFIX`).
pub fn environment_entries(list: &CondaEnvironmentList, active_prefix: &str, windows: bool) -> (r: Vec<
    EnvironmentEntry,
>)
    ensures
        entry_views(r@) == entries_of(list@.envs, list@.details, active_prefix@, windows),
{
    let ghost envs = list@.envs;
    let ghost ds = list@.details;
    let active = chars_of(active_prefix);
    let mut seen: Vec<Vec<char>> = Vec::new();
    let mut out: Vec<EnvironmentEntry> = Vec::new();
    let mut i: usize = 0;
    while i < list.envs.len()
        invariant
            i <= list.envs.len(),
            envs == list@.envs,
            envs.len() == list.envs.len(),
            ds == list@.details,
            active@ == active_prefix@,
            seen.len() == i,
            views(seen@) == envs.subrange(0, i as int).map_values(|p: Seq<char>| lower(p)),
            entry_views(out@) == first_of_each(envs.subrange(0, i as int)).map_values(
                |p: Seq<char>| entry_of(p, ds, active_prefix@, windows),
            ),
        decreases list.envs.len() - i,
    {
        let prefix = chars_of(list.envs[i].as_str());
        assert(prefix@ == envs[i as int]);
        let normalized = lower_exec(&prefix);
        let mut found = false;
        let mut j: usize = 0;
        while j < seen.len()
            invariant
                j <= seen.len(),
                seen.len() == i,
                i < envs.len(),
                views(seen@) == envs.subrange(0, i as int).map_values(|p: Seq<char>| lower(p)),
                found == exists|k: int| 0 <= k < j && lower(#[trigger] envs[k]) == normalized@,
            decreases seen.len() - j,
        {
            assert(views(seen@)[j as int] == lower(envs[j as int]));
            if eq(&seen[j], &normalized) {
                found = true;
            }
            j = j + 1;
        }
        let ghost sub = envs.subrange(0, i + 1);
        assert(sub.drop_last() =~= envs.subrange(0, i as int));
        assert(sub.last() == envs[i as int]);
        assert(found == exists|k: int| 0 <= k < sub.len() - 1 && lower(#[trigger] sub[k]) == lower(
            sub.last(),
        )) by {
            if found {
                let k = choose|k: int| 0 <= k < i && lower(#[trigger] envs[k]) == normalized@;
                assert(sub[k] == envs[k]);
            }
            if exists|k: int| 0 <= k < sub.len() - 1 && lower(#[trigger] sub[k]) == lower(sub.last()) {
                let k = choose|k: int| 0 <= k < sub.len() - 1 && lower(#[trigger] sub[k]) == lower(sub.last());
                assert(sub[k] == envs[k]);
            }
        }
        if !found {
            let meta = details_get_exec(list, &prefix);
            let name = match &meta {
                Some((Some(n), _)) => n.clone(),
                _ => to_string(&derived_name_exec(&prefix, windows)),
            };
            let is_active = match &meta {
                Some((_, Some(a))) => *a,
                _ => eq_ignore_case_exec(&prefix, &active),
            };
            let ghost before = entry_views(out@);
            out.push(EnvironmentEntry { name, prefix: list.envs[i].clone(), active: is_active });
            assert(entry_views(out@) =~= before.push(entry_of(envs[i as int], ds, active_prefix@, windows)));
        }
        let ghost before_seen = views(seen@);
        seen.push(normalized);
        assert(views(seen@) =~= before_seen.push(lower(envs[i as int])));
        i = i + 1;
        assert(views(seen@) =~= envs.subrange(0, i as int).map_values(|p: Seq<char>| lower(p)));
        assert(first_of_each(sub).map_values(|p: Seq<char>| entry_of(p, ds, active_prefix@, windows))
            =~= entry_views(out@));
    }
    assert(envs.subrange(0, envs.len() as int) =~= envs);
    out
}

/// The sort key of an environment: its name.
pub open spec fn env_name_key(e: CondaEnvironment) -> Seq<u32> {
    code_points(e.name@)
}

/// Sorts environments by name, stably (`sort_by` on the names).
pub fn sort_environments(envs: Vec<CondaEnvironment>) -> (r: Vec<CondaEnvironment>)
    ensures
        sorted_values(r@, envs@, |e: CondaEnvironment| env_name_key(e), false),
{
    let ghost s = envs@;
    let mut rest = envs;
    let mut pairs: Vec<(Vec<u32>, CondaEnvironment)> = Vec::new();
    let mut n: usize = 0;
    assert(rest@ =~= s.subrange(0, s.len() as int));
    assert(s.len() == rest.len());
    while rest.len() > 0
        invariant
            n + rest.len() == s.len(),
            s.len() <= usize::MAX,
            rest@ == s.subrange(n as int, s.len() as int),
            values_of(pairs@) == s.subrange(0, n as int),
            forall|i: int| 0 <= i < pairs@.len() ==> (#[trigger] pairs@[i]).0@ == env_name_key(
                pairs@[i].1,
            ),
        decreases rest.len(),
    {
        let ghost old_rest = rest@;
        let ghost before = values_of(pairs@);
        let e = rest.remove(0);
        assert(e == s[n as int]);
        let k = code_points_exec(&chars_of(e.name.as_str()));
        pairs.push((k, e));
        assert(values_of(pairs@) =~= before.push(s[n as int]));
        n = n + 1;
        assert(rest@ =~= s.subrange(n as int, s.len() as int));
        assert(values_of(pairs@) =~= s.subrange(0, n as int));
    }
    assert(s.subrange(0, n as int) =~= s);
    sort_values(pairs, false, Ghost(|e: CondaEnvironment| env_name_key(e)))
}

/// `option.filter(|v| !v.trim().is_empty())`.
pub open spec fn filled(o: Option<Seq<char>>) -> Option<Seq<char>> {
    match o {
        Some(v) => if trim(v).len() > 0 {
            Some(v)
        } else {
            None
        },
        None => None,
    }
}

pub fn filled_exec(o: Option<String>) -> (r: Option<String>)
    ensures
        opt_string_view(r) == filled(opt_string_view(o)),
{
    match o {
        Some(v) => if trim_exec(&chars_of(v.as_str())).len() > 0 {
            Some(v)
        } else {
            None
        },
        None => None,
    }
}

/// The channel switch: `-c <channel> --override-channels` unless the channel
/// is empty or `defaults`.
pub open spec fn channel_args_of(channel: Seq<char>) -> Seq<Seq<char>> {
    if channel.len() > 0 && channel != "defaults"@ {
        seq!["-c"@, channel, "--override-channels"@]
    } else {
        seq![]
    }
}

fn push_channel_args(args: &mut Vec<String>, channel: &String)
    ensures
        string_views(final(args)@) == string_views(old(args)@) + channel_args_of(channel@),
{
    let ghost before = string_views(args@);
    if !channel.as_str().is_empty() && !eq(&chars_of(channel.as_str()), &chars_of("defaults")) {
        args.push("-c".to_owned());
        args.push(channel.clone());
        args.push("--override-channels".to_owned());
        assert(string_views(args@) =~= before + channel_args_of(channel@));
    } else {
        proof {
            if channel@.len() > 0 {
                assert(channel@ == "defaults"@);
            }
        }
        assert(string_views(args@) =~= before + channel_args_of(channel@));
    }
}

/// Why an environment name is refused, if it is.
pub open spec fn env_name_error(name: Seq<char>) -> Option<Seq<char>> {
    if trim(name).len() == 0 {
        Some("环境名称不能为空"@)
    } else if is_path_like(name) {
        Some("环境名称不能包含路径分隔符"@)
    } else {
        None
    }
}

/// `.`, `..`, or a name holding `/`, `\` or `:`.
pub open spec fn is_path_like(name: Seq<char>) -> bool {
    name == "."@ || name == ".."@ || name.contains('/') || name.contains('\\') || name.contains(':')
}

pub fn is_path_like_exec(name: &Vec<char>) -> (r: bool)
    ensures
        r == is_path_like(name@),
{
    eq(name, &chars_of(".")) || eq(name, &chars_of("..")) || crate::text::contains_char(name, '/')
        || crate::text::contains_char(name, '\\') || crate::text::contains_char(name, ':')
}

/// How an environment is created.
pub enum CondaCreatePlan {
    /// Run Conda with these arguments.
    Run(Vec<String>),
    /// Export the source with these arguments, rewrite the export for the
    /// clone (pinning python to the version given, if any) and create from it.
    CloneByExport(Vec<String>, Option<String>),
}

pub enum CreatePlanView {
    Run(Seq<Seq<char>>),
    CloneByExport(Seq<Seq<char>>, Option<Seq<char>>),
}

pub open spec fn plan_view(p: CondaCreatePlan) -> CreatePlanView {
    match p {
        CondaCreatePlan::Run(a) => CreatePlanView::Run(string_views(a@)),
        CondaCreatePlan::CloneByExport(a, t) => CreatePlanView::CloneByExport(
            string_views(a@),
            opt_string_view(t),
        ),
    }
}

/// The plan for `conda create`.
pub open spec fn create_plan_of(
    name: Seq<char>,
    mode: Seq<char>,
    source: Option<Seq<char>>,
    target_python: Option<Seq<char>>,
    clone_python: bool,
    clone_packages: bool,
    python_version: Option<Seq<char>>,
    channel: Option<Seq<char>>,
    packages: Seq<Seq<char>>,
) -> Result<CreatePlanView, Seq<char>> {
    match env_name_error(name) {
        Some(e) => Err(e),
        None => if mode == "clone"@ {
            match filled(source) {
                None => Err("请选择要克隆的源环境"@),
                Some(src) => if clone_python && clone_packages && filled(target_python) is None {
                    Ok(CreatePlanView::Run(seq!["create"@, "-n"@, name, "--clone"@, src, "-y"@]))
                } else {
                    Ok(
                        CreatePlanView::CloneByExport(
                            seq!["env"@, "export"@, "-n"@, src, "--no-builds"@],
                            filled(target_python),
                        ),
                    )
                },
            }
        } else {
            let ch = match channel {
                Some(c) => channel_args_of(c),
                None => seq![],
            };
            let py = match python_version {
                Some(v) => if v.len() > 0 {
                    seq!["python="@ + v]
                } else {
                    seq![]
                },
                None => seq![],
            };
            Ok(
                CreatePlanView::Run(
                    seq!["create"@, "-n"@, name] + ch + py + packages.filter(
                        crate::text::is_nonblank(),
                    ) + seq!["-y"@],
                ),
            )
        },
    }
}

/// Validates a create request and chooses how to carry it out: a plain
/// `conda create`, a `--clone`, or an export rewritten for a partial clone.
pub fn create_plan(
    name: &str,
    mode: &str,
    source: Option<String>,
    target_python_version: Option<String>,
    clone_python: bool,
    clone_packages: bool,
    python_version: Option<String>,
    channel: Option<String>,
    packages: Vec<String>,
) -> (r: Result<CondaCreatePlan, String>)
    ensures
        match r {
            Ok(p) => create_plan_of(
                name@,
                mode@,
                opt_string_view(source),
                opt_string_view(target_python_version),
                clone_python,
                clone_packages,
                opt_string_view(python_version),
                opt_string_view(channel),
                string_views(packages@),
            ) == Ok::<CreatePlanView, Seq<char>>(plan_view(p)),
            Err(e) => create_plan_of(
                name@,
                mode@,
                opt_string_view(source),
                opt_string_view(target_python_version),
                clone_python,
                clone_packages,
                opt_string_view(python_version),
                opt_string_view(channel),
                string_views(packages@),
            ) == Err::<CreatePlanView, Seq<char>>(e@),
        },
{
    let n = chars_of(name);
    if trim_exec(&n).len() == 0 {
        return Err("环境名称不能为空".to_owned());
    }
    if is_path_like_exec(&n) {
        return Err("环境名称不能包含路径分隔符".to_owned());
    }
    let mut args: Vec<String> = Vec::new();
    args.push("create".to_owned());
    args.push("-n".to_owned());
    args.push(name.to_owned());
    if eq(&chars_of(mode), &chars_of("clone")) {
        let src = match filled_exec(source) {
            Some(s) => s,
            None => {
                return Err("请选择要克隆的源环境".to_owned());
            },
        };
        let target = filled_exec(target_python_version);
        if clone_python && clone_packages && target.is_none() {
            args.push("--clone".to_owned());
            args.push(src);
            args.push("-y".to_owned());
            assert(string_views(args@) =~= seq!["create"@, "-n"@, name@, "--clone"@, filled(opt_string_view(source)).unwrap(), "-y"@]);
            return Ok(CondaCreatePlan::Run(args));
        }
        let mut export: Vec<String> = Vec::new();
        export.push("env".to_owned());
        export.push("export".to_owned());
        export.push("-n".to_owned());
        export.push(src);
        export.push("--no-builds".to_owned());
        assert(string_views(export@) =~= seq!["env"@, "export"@, "-n"@, filled(opt_string_view(source)).unwrap(), "--no-builds"@]);
        return Ok(CondaCreatePlan::CloneByExport(export, target));
    }
    let ghost base = string_views(args@);
    assert(base =~= seq!["create"@, "-n"@, name@]);
    match &channel {
        Some(c) => push_channel_args(&mut args, c),
        None => {},
    }
    let ghost with_channel = string_views(args@);
    match &python_version {
        Some(v) => {
            if !v.as_str().is_empty() {
                args.push(to_string(&concat(&chars_of("python="), &chars_of(v.as_str()))));
            }
        },
        None => {},
    }
    let ghost with_python = string_views(args@);
    let mut pv: Vec<Vec<char>> = Vec::new();
    let mut i: usize = 0;
    while i < packages.len()
        invariant
            i <= packages.len(),
            views(pv@) == string_views(packages@).subrange(0, i as int),
        decreases packages.len() - i,
    {
        let ghost b = views(pv@);
        pv.push(chars_of(packages[i].as_str()));
        assert(views(pv@) =~= b.push(packages@[i as int]@));
        i = i + 1;
        assert(views(pv@) =~= string_views(packages@).subrange(0, i as int));
    }
    assert(string_views(packages@).subrange(0, packages.len() as int) =~= string_views(packages@));
    let kept = crate::text::keep_filled(pv, true);
    let mut j: usize = 0;
    while j < kept.len()
        invariant
            j <= kept.len(),
            string_views(args@) == with_python + views(kept@).subrange(0, j as int),
        decreases kept.len() - j,
    {
        let ghost b = string_views(args@);
        args.push(to_string(&kept[j]));
        assert(string_views(args@) =~= b.push(kept@[j as int]@));
        j = j + 1;
        assert(string_views(args@) =~= with_python + views(kept@).subrange(0, j as int));
    }
    assert(views(kept@).subrange(0, kept.len() as int) =~= views(kept@));
    args.push("-y".to_owned());
    proof {
        let ch = match opt_string_view(channel) {
            Some(c) => channel_args_of(c),
            None => seq![],
        };
        assert(with_channel =~= base + ch);
        let py = match opt_string_view(python_version) {
            Some(v) => if v.len() > 0 {
                seq!["python="@ + v]
            } else {
                seq![]
            },
            None => seq![],
        };
        assert(with_python =~= with_channel + py);
        let kv = views(kept@);
        assert(kv == string_views(packages@).filter(crate::text::is_nonblank()));
        assert(string_views(args@) =~= with_python + kv + seq!["-y"@]);
        assert(string_views(args@) =~= seq!["create"@, "-n"@, name@] + ch + py + string_views(
            packages@,
        ).filter(crate::text::is_nonblank()) + seq!["-y"@]);
    }
    Ok(CondaCreatePlan::Run(args))
}

/// `[stdout, stderr]` without the empty ones, one per line.
pub open spec fn two_outputs(stdout: Seq<char>, stderr: Seq<char>) -> Seq<char> {
    crate::text::join(seq![stdout, stderr].filter(crate::text::is_nonempty()), "\n"@)
}

pub fn join_filled(parts: Vec<String>, sep: &str, blank_too: bool) -> (r: String)
    ensures
        r@ == crate::text::join(string_views(parts@).filter(if blank_too {
            crate::text::is_nonblank()
        } else {
            crate::text::is_nonempty()
        }), sep@),
{
    let mut pv: Vec<Vec<char>> = Vec::new();
    let mut i: usize = 0;
    while i < parts.len()
        invariant
            i <= parts.len(),
            views(pv@) == string_views(parts@).subrange(0, i as int),
        decreases parts.len() - i,
    {
        let ghost b = views(pv@);
        pv.push(chars_of(parts[i].as_str()));
        assert(views(pv@) =~= b.push(parts@[i as int]@));
        i = i + 1;
        assert(views(pv@) =~= string_views(parts@).subrange(0, i as int));
    }
    assert(string_views(parts@).subrange(0, parts.len() as int) =~= string_views(parts@));
    let kept = crate::text::keep_filled(pv, blank_too);
    to_string(&crate::text::join_exec(&kept, &chars_of(sep)))
}

pub(crate) fn two(a: String, b: String) -> (r: Vec<String>)
    ensures
        string_views(r@) == seq![a@, b@],
{
    let mut v: Vec<String> = Vec::new();
    v.push(a);
    v.push(b);
    assert(string_views(v@) =~= seq![a@, b@]);
    v
}

/// The result of a created environment.
pub fn created_result(name: &str, command: String, stdout: String, stderr: String) -> (r: OperationResult)
    ensures
        r.ok,
        r.message@ == "Conda 环境 "@ + name@ + " 创建完成"@,
        r.command@ == command@,
        r.output@ == two_outputs(stdout@, stderr@),
{
    let message = to_string(&concat(&concat(&chars_of("Conda 环境 "), &chars_of(name)), &chars_of(" 创建完成")));
    let output = join_filled(two(stdout, stderr), "\n", false);
    OperationResult { ok: true, message, command, output }
}

/// The file the rewritten export of a partial clone is written to:
/// `<temp>/wj-python-clone-<process id>-<name>.yml`.
pub fn clone_temp_file(temp_dir: &str, process_id: u32, name: &str, windows: bool) -> (r: String)
    ensures
        r@ == join_path(
            temp_dir@,
            "wj-python-clone-"@ + crate::text::decimal(process_id as nat) + "-"@ + name@ + ".yml"@,
            windows,
        ),
{
    let f = concat(
        &concat(
            &concat(&concat(&chars_of("wj-python-clone-"), &crate::text::decimal_exec(process_id as u128)), &chars_of("-")),
            &chars_of(name),
        ),
        &chars_of(".yml"),
    );
    to_string(&join_chars(&chars_of(temp_dir), &f, windows))
}

/// `env create -f <file> -y`.
pub fn create_from_file_args(file: &str) -> (r: Vec<String>)
    ensures
        string_views(r@) == seq!["env"@, "create"@, "-f"@, file@, "-y"@],
{
    let mut v: Vec<String> = Vec::new();
    v.push("env".to_owned());
    v.push("create".to_owned());
    v.push("-f".to_owned());
    v.push(file.to_owned());
    v.push("-y".to_owned());
    assert(string_views(v@) =~= seq!["env"@, "create"@, "-f"@, file@, "-y"@]);
    v
}

/// `env remove -n <name> -y`; the base environment and a blank name are refused.
pub fn remove_args(name: &str) -> (r: Result<Vec<String>, String>)
    ensures
        match r {
            Ok(a) => !(name@ == "base"@ || trim(name@).len() == 0) && string_views(a@) == seq![
                "env"@,
                "remove"@,
                "-n"@,
                name@,
                "-y"@,
            ],
            Err(e) => (name@ == "base"@ || trim(name@).len() == 0) && e@ == "不能删除 base 环境或空环境名"@,
        },
{
    let n = chars_of(name);
    if eq(&n, &chars_of("base")) || trim_exec(&n).len() == 0 {
        return Err("不能删除 base 环境或空环境名".to_owned());
    }
    let mut v: Vec<String> = Vec::new();
    v.push("env".to_owned());
    v.push("remove".to_owned());
    v.push("-n".to_owned());
    v.push(name.to_owned());
    v.push("-y".to_owned());
    assert(string_views(v@) =~= seq!["env"@, "remove"@, "-n"@, name@, "-y"@]);
    Ok(v)
}

/// `env export -n <name> -f <path>`.
pub fn export_args(name: &str, path: &str) -> (r: Vec<String>)
    ensures
        string_views(r@) == seq!["env"@, "export"@, "-n"@, name@, "-f"@, path@],
{
    let mut v: Vec<String> = Vec::new();
    v.push("env".to_owned());
    v.push("export".to_owned());
    v.push("-n".to_owned());
    v.push(name.to_owned());
    v.push("-f".to_owned());
    v.push(path.to_owned());
    assert(string_views(v@) =~= seq!["env"@, "export"@, "-n"@, name@, "-f"@, path@]);
    v
}

/// The file an environment is exported to by "export all": `<directory>/<name>.yml`.
pub fn export_all_file(directory: &str, name: &str, windows: bool) -> (r: String)
    ensures
        r@ == join_path(directory@, name@ + ".yml"@, windows),
{
    to_string(&join_chars(&chars_of(directory), &concat(&chars_of(name), &chars_of(".yml")), windows))
}

/// `env create -f <path> -y`, then `-n <name>` when a name is given.
pub fn import_args(path: &str, name: Option<String>) -> (r: Vec<String>)
    ensures
        string_views(r@) == seq!["env"@, "create"@, "-f"@, path@, "-y"@] + match filled(
            opt_string_view(name),
        ) {
            Some(n) => seq!["-n"@, n],
            None => seq![],
        },
{
    let mut v = create_from_file_args(path);
    let ghost base = string_views(v@);
    match filled_exec(name) {
        Some(n) => {
            v.push("-n".to_owned());
            v.push(n);
        },
        None => {},
    }
    assert(string_views(v@) =~= base + match filled(opt_string_view(name)) {
        Some(n) => seq!["-n"@, n],
        None => seq![],
    });
    v
}

/// `search [-c <channel> --override-channels] python[=<version>] --json`.
pub fn search_args(version: &str, channel: &str) -> (r: Vec<String>)
    ensures
        string_views(r@) == seq!["search"@] + channel_args_of(channel@) + seq![
            if version@.len() == 0 {
                "python"@
            } else {
                "python="@ + version@
            },
            "--json"@,
        ],
{
    let mut v: Vec<String> = Vec::new();
    v.push("search".to_owned());
    let ghost base = string_views(v@);
    assert(base =~= seq!["search"@]);
    let ch = channel.to_owned();
    push_channel_args(&mut v, &ch);
    let ghost mid = string_views(v@);
    if version.is_empty() {
        v.push("python".to_owned());
    } else {
        v.push(to_string(&concat(&chars_of("python="), &chars_of(version))));
    }
    v.push("--json".to_owned());
    assert(string_views(v@) =~= seq!["search"@] + channel_args_of(channel@) + seq![
        if version@.len() == 0 {
            "python"@
        } else {
            "python="@ + version@
        },
        "--json"@,
    ]);
    v
}

/// The key of the version-search cache: `<channel>::<version>`, both trimmed.
pub fn cache_key(version: &str, channel: &str) -> (r: String)
    ensures
        r@ == trim(channel@) + "::"@ + trim(version@),
{
    to_string(&concat(&concat(&trim_exec(&chars_of(channel)), &chars_of("::")), &trim_exec(&chars_of(version))))
}

/// A cached search is used while less than an hour old.
pub fn cache_entry_fresh(now: u64, updated_at: u64) -> (r: bool)
    ensures
        r == ((if now >= updated_at {
            now - updated_at
        } else {
            0
        }) < 3600),
{
    let age = if now >= updated_at {
        now - updated_at
    } else {
        0
    };
    age < 3600
}

/// Where the version-search cache lives: `<config>/WJ Python Manager/conda-python-versions.json`,
/// the configuration directory being `APPDATA` on Windows, else
/// `XDG_CONFIG_HOME`, else `<HOME>/.config`.
pub open spec fn config_base(
    windows: bool,
    appdata: Option<Seq<char>>,
    xdg: Option<Seq<char>>,
    home: Option<Seq<char>>,
) -> Option<Seq<char>> {
    if windows {
        appdata
    } else {
        match xdg {
            Some(x) => Some(x),
            None => match home {
                Some(h) => Some(join_path(h, ".config"@, false)),
                None => None,
            },
        }
    }
}

pub fn config_base_exec(
    windows: bool,
    appdata: Option<String>,
    xdg: Option<String>,
    home: Option<String>,
) -> (r: Option<String>)
    ensures
        opt_string_view(r) == config_base(
            windows,
            opt_string_view(appdata),
            opt_string_view(xdg),
            opt_string_view(home),
        ),
{
    if windows {
        appdata
    } else {
        match xdg {
            Some(x) => Some(x),
            None => match home {
                Some(h) => Some(to_string(&join_chars(&chars_of(h.as_str()), &chars_of(".config"), false))),
                None => None,
            },
        }
    }
}

pub fn cache_path(
    windows: bool,
    appdata: Option<String>,
    xdg: Option<String>,
    home: Option<String>,
) -> (r: Option<String>)
    ensures
        opt_string_view(r) == match config_base(
            windows,
            opt_string_view(appdata),
            opt_string_view(xdg),
            opt_string_view(home),
        ) {
            Some(b) => Some(
                join_path(join_path(b, "WJ Python Manager"@, windows), "conda-python-versions.json"@, windows),
            ),
            None => None,
        },
{
    match config_base_exec(windows, appdata, xdg, home) {
        Some(b) => Some(to_string(&join_chars(&join_chars(&chars_of(b.as_str()), &chars_of("WJ Python Manager"), windows), &chars_of("conda-python-versions.json"), windows))),
        None => None,
    }
}

/// `s.split(c)`: the pieces between the occurrences of `c`.
pub open spec fn split_on(s: Seq<char>, c: char) -> Seq<Seq<char>>
    decreases s.len(),
{
    if s.len() == 0 {
        seq![seq![]]
    } else {
        let p = split_on(s.drop_last(), c);
        if s.last() == c {
            p.push(seq![])
        } else {
            p.update(p.len() - 1, p.last().push(s.last()))
        }
    }
}

proof fn lemma_split_nonempty(s: Seq<char>, c: char)
    ensures
        split_on(s, c).len() >= 1,
    decreases s.len(),
{
    if s.len() > 0 {
        lemma_split_nonempty(s.drop_last(), c);
    }
}

pub fn split_on_exec(v: &Vec<char>, c: char) -> (r: Vec<Vec<char>>)
    ensures
        views(r@) == split_on(v@, c),
{
    let mut done: Vec<Vec<char>> = Vec::new();
    let mut cur: Vec<char> = Vec::new();
    let mut i: usize = 0;
    while i < v.len()
        invariant
            i <= v.len(),
            views(done@).push(cur@) == split_on(v@.subrange(0, i as int), c),
        decreases v.len() - i,
    {
        assert(v@.subrange(0, i + 1).drop_last() =~= v@.subrange(0, i as int));
        proof {
            lemma_split_nonempty(v@.subrange(0, i as int), c);
        }
        let ghost before = views(done@).push(cur@);
        if v[i] == c {
            done.push(cur);
            cur = Vec::new();
            assert(views(done@).push(cur@) =~= before.push(seq![]));
        } else {
            cur.push(v[i]);
            assert(views(done@).push(cur@) =~= before.update(before.len() - 1, before.last().push(
                v@[i as int],
            )));
        }
        i = i + 1;
    }
    assert(v@.subrange(0, v.len() as int) =~= v@);
    let ghost before = views(done@);
    done.push(cur);
    assert(views(done@) =~= before.push(cur@));
    done
}

/// The value of a text of decimal digits.
pub open spec fn digits_value(p: Seq<char>) -> nat
    decreases p.len(),
{
    if p.len() == 0 {
        0
    } else {
        digits_value(p.drop_last()) * 10 + ((p.last() as u32) - 48) as nat
    }
}

/// `piece.parse::<u32>().unwrap_or(0)` for a piece of digits.
pub open spec fn piece_value(p: Seq<char>) -> u32 {
    if p.len() > 0 && (forall|i: int| 0 <= i < p.len() ==> crate::text::is_ascii_digit(#[trigger] p[i]))
        && digits_value(p) <= u32::MAX {
        digits_value(p) as u32
    } else {
        0
    }
}

fn piece_value_exec(p: &Vec<char>) -> (r: u32)
    ensures
        r == piece_value(p@),
{
    if p.len() == 0 {
        return 0;
    }
    let mut acc: u64 = 0;
    let mut i: usize = 0;
    while i < p.len()
        invariant
            i <= p.len(),
            acc <= u32::MAX,
            acc == digits_value(p@.subrange(0, i as int)),
            forall|k: int| 0 <= k < i ==> crate::text::is_ascii_digit(#[trigger] p@[k]),
        decreases p.len() - i,
    {
        assert(p@.subrange(0, i + 1).drop_last() =~= p@.subrange(0, i as int));
        let c = p[i];
        if !('0' <= c && c <= '9') {
            return 0;
        }
        let d = (c as u32 - 48) as u64;
        let next = acc * 10 + d;
        if next > 0xffff_ffff {
            proof {
                lemma_digits_grow(p@, i + 1);
            }
            return 0;
        }
        acc = next;
        i = i + 1;
    }
    assert(p@.subrange(0, p.len() as int) =~= p@);
    acc as u32
}

pub proof fn lemma_digits_grow(p: Seq<char>, i: int)
    requires
        0 <= i <= p.len(),
    ensures
        digits_value(p.subrange(0, i)) <= digits_value(p),
    decreases p.len() - i,
{
    if i < p.len() {
        lemma_digits_grow(p, i + 1);
        assert(p.subrange(0, i + 1).drop_last() =~= p.subrange(0, i));
    } else {
        assert(p.subrange(0, i) =~= p);
    }
}

/// The order key of a version: its dotted pieces as numbers.
pub open spec fn version_key(v: Seq<char>) -> Seq<u32> {
    split_on(v, '.').map_values(|p: Seq<char>| piece_value(p))
}

fn version_key_exec(v: &Vec<char>) -> (r: Vec<u32>)
    ensures
        r@ == version_key(v@),
{
    let pieces = split_on_exec(v, '.');
    let mut r: Vec<u32> = Vec::new();
    let mut i: usize = 0;
    while i < pieces.len()
        invariant
            i <= pieces.len(),
            r@ == views(pieces@).subrange(0, i as int).map_values(|p: Seq<char>| piece_value(p)),
        decreases pieces.len() - i,
    {
        r.push(piece_value_exec(&pieces[i]));
        i = i + 1;
        assert(r@ =~= views(pieces@).subrange(0, i as int).map_values(|p: Seq<char>| piece_value(p)));
    }
    assert(views(pieces@).subrange(0, pieces.len() as int) =~= views(pieces@));
    r
}

/// Only digits and dots.
pub open spec fn is_version_text(s: Seq<char>) -> bool {
    forall|i: int| 0 <= i < s.len() ==> crate::text::is_ascii_digit(#[trigger] s[i]) || s[i] == '.'
}

/// The `version` of each entry under `python`, in order, where it is a text
/// of digits and dots.
pub open spec fn versions_in(items: Seq<crate::json::JsonValue>) -> Seq<Seq<char>>
    decreases items.len(),
{
    if items.len() == 0 {
        seq![]
    } else {
        let rest = versions_in(items.drop_last());
        match crate::json::json_str(crate::json::json_get(items.last(), "version"@)) {
            Some(s) => if is_version_text(s) {
                rest.push(s)
            } else {
                rest
            },
            None => rest,
        }
    }
}

pub open spec fn listed_versions(v: crate::json::JsonValue) -> Seq<Seq<char>> {
    match crate::json::json_get(v, "python"@) {
        Some(crate::json::JsonValue::Array(items)) => versions_in(items@),
        _ => seq![],
    }
}

/// Adjacent repeats removed (`Vec::dedup`).
pub open spec fn dedup_adjacent(s: Seq<Seq<char>>) -> Seq<Seq<char>>
    decreases s.len(),
{
    if s.len() <= 1 {
        s
    } else {
        let d = dedup_adjacent(s.drop_last());
        if s.last() == s[s.len() - 2] {
            d
        } else {
            d.push(s.last())
        }
    }
}

pub open spec fn version_order_key(v: Vec<char>) -> Seq<u32> {
    version_key(v@)
}

fn is_version_text_exec(s: &Vec<char>) -> (r: bool)
    ensures
        r == is_version_text(s@),
{
    let mut i: usize = 0;
    while i < s.len()
        invariant
            i <= s.len(),
            forall|k: int| 0 <= k < i ==> crate::text::is_ascii_digit(#[trigger] s@[k]) || s@[k] == '.',
        decreases s.len() - i,
    {
        if !(('0' <= s[i] && s[i] <= '9') || s[i] == '.') {
            return false;
        }
        i = i + 1;
    }
    true
}

fn listed_versions_exec(v: &crate::json::JsonValue) -> (r: Vec<Vec<char>>)
    ensures
        views(r@) == listed_versions(*v),
{
    match crate::json::get(v, &chars_of("python")) {
        Some(crate::json::JsonValue::Array(items)) => {
            let mut out: Vec<Vec<char>> = Vec::new();
            let mut i: usize = 0;
            while i < items.len()
                invariant
                    i <= items.len(),
                    views(out@) == versions_in(items@.subrange(0, i as int)),
                decreases items.len() - i,
            {
                assert(items@.subrange(0, i + 1).drop_last() =~= items@.subrange(0, i as int));
                assert(items@.subrange(0, i + 1).last() == items@[i as int]);
                match crate::json::get_str(&items[i], &chars_of("version")) {
                    Some(s) => {
                        if is_version_text_exec(&s) {
                            let ghost b = views(out@);
                            out.push(s);
                            assert(views(out@) =~= b.push(s@));
                        }
                    },
                    None => {},
                }
                i = i + 1;
            }
            assert(items@.subrange(0, items.len() as int) =~= items@);
            out
        },
        _ => {
            let out: Vec<Vec<char>> = Vec::new();
            assert(views(out@) =~= Seq::<Seq<char>>::empty());
            out
        },
    }
}

fn dedup_exec(s: Vec<Vec<char>>) -> (r: Vec<Vec<char>>)
    ensures
        views(r@) == dedup_adjacent(views(s@)),
{
    let ghost sv = views(s@);
    let mut out: Vec<Vec<char>> = Vec::new();
    let mut i: usize = 0;
    while i < s.len()
        invariant
            i <= s.len(),
            sv == views(s@),
            views(out@) == dedup_adjacent(sv.subrange(0, i as int)),
            i > 0 ==> out.len() > 0 && out@[out.len() - 1]@ == sv[i - 1],
        decreases s.len() - i,
    {
        let ghost sub = sv.subrange(0, i + 1);
        assert(sub.drop_last() =~= sv.subrange(0, i as int));
        proof {
            if i > 0 {
                lemma_dedup_last(sv.subrange(0, i as int));
            }
        }
        if i == 0 || !eq(&s[i], &s[i - 1]) {
            let ghost b = views(out@);
            out.push(s[i].clone());
            assert(views(out@) =~= b.push(sv[i as int]));
            proof {
                if i == 0 {
                    assert(sub =~= seq![sv[0]]);
                    assert(views(out@) =~= seq![sv[0]]);
                }
            }
        }
        i = i + 1;
    }
    assert(sv.subrange(0, s.len() as int) =~= sv);
    out
}

proof fn lemma_dedup_last(s: Seq<Seq<char>>)
    requires
        s.len() > 0,
    ensures
        dedup_adjacent(s).len() > 0,
        dedup_adjacent(s).last() == s.last(),
    decreases s.len(),
{
    if s.len() > 1 {
        lemma_dedup_last(s.drop_last());
    }
}

/// The Python versions of a `conda search --json` answer: the listed ones
/// made of digits and dots, newest first by their numeric pieces (stably),
/// repeats side by side dropped.
pub fn python_versions_from(parsed: &crate::json::JsonValue) -> (r: Vec<String>)
    ensures
        exists|sorted: Seq<Seq<char>>|
            {
                &&& sorted_values(sorted, listed_versions(*parsed), |v: Seq<char>| version_key(v), true)
                &&& string_views(r@) == dedup_adjacent(sorted)
            },
{
    let listed = listed_versions_exec(parsed);
    let ghost lv = listed@;
    let mut rest = listed;
    let mut pairs: Vec<(Vec<u32>, Vec<char>)> = Vec::new();
    let mut n: usize = 0;
    assert(rest@ =~= lv.subrange(0, lv.len() as int));
    assert(lv.len() == rest.len());
    while rest.len() > 0
        invariant
            n + rest.len() == lv.len(),
            lv.len() <= usize::MAX,
            rest@ == lv.subrange(n as int, lv.len() as int),
            values_of(pairs@) == lv.subrange(0, n as int),
            forall|i: int| 0 <= i < pairs@.len() ==> (#[trigger] pairs@[i]).0@ == version_order_key(
                pairs@[i].1,
            ),
        decreases rest.len(),
    {
        let ghost before = values_of(pairs@);
        let x = rest.remove(0);
        assert(x == lv[n as int]);
        let k = version_key_exec(&x);
        pairs.push((k, x));
        assert(values_of(pairs@) =~= before.push(lv[n as int]));
        n = n + 1;
        assert(rest@ =~= lv.subrange(n as int, lv.len() as int));
    }
    assert(lv.subrange(0, n as int) =~= lv);
    let sorted = sort_values(pairs, true, Ghost(|v: Vec<char>| version_order_key(v)));
    let ghost sv = sorted@;
    let deduped = dedup_exec(sorted);
    let mut out: Vec<String> = Vec::new();
    let mut j: usize = 0;
    while j < deduped.len()
        invariant
            j <= deduped.len(),
            string_views(out@) == views(deduped@).subrange(0, j as int),
        decreases deduped.len() - j,
    {
        let ghost b = string_views(out@);
        out.push(to_string(&deduped[j]));
        assert(string_views(out@) =~= b.push(deduped@[j as int]@));
        j = j + 1;
        assert(string_views(out@) =~= views(deduped@).subrange(0, j as int));
    }
    assert(views(deduped@).subrange(0, deduped.len() as int) =~= views(deduped@));
    proof {
        crate::sort::lemma_sorted_values_views(
            sv,
            lv,
            |v: Vec<char>| version_order_key(v),
            |v: Seq<char>| version_key(v),
            true,
        );
        assert(views(lv) == listed_versions(*parsed));
        assert(string_views(out@) == dedup_adjacent(views(sv)));
    }
    out
}

pub(crate) fn push_lit(v: &mut Vec<String>, s: &str)
    ensures
        string_views(final(v)@) == string_views(old(v)@).push(s@),
{
    let ghost b = string_views(v@);
    v.push(s.to_owned());
    assert(string_views(v@) =~= b.push(s@));
}

/// The install of `python=<version>` into an environment, and its dry run.
pub open spec fn upgrade_python_args_of(name: Seq<char>, version: Seq<char>, channel: Seq<char>) -> Seq<
    Seq<char>,
> {
    seq!["install"@, "-n"@, name, "python="@ + version] + channel_args_of(channel) + seq!["-y"@]
}

/// The arguments of a Python upgrade and of its `--dry-run` check; a blank
/// name or version is refused.
pub fn upgrade_python_args(name: &str, version: &str, channel: &str) -> (r: Result<
    (Vec<String>, Vec<String>),
    String,
>)
    ensures
        match r {
            Ok((args, dry)) => trim(name@).len() > 0 && trim(version@).len() > 0 && string_views(
                args@,
            ) == upgrade_python_args_of(name@, version@, channel@) && string_views(dry@)
                == upgrade_python_args_of(name@, version@, channel@).push("--dry-run"@),
            Err(e) => (trim(name@).len() == 0 || trim(version@).len() == 0) && e@
                == "环境名称和目标 Python 版本不能为空"@,
        },
{
    if trim_exec(&chars_of(name)).len() == 0 || trim_exec(&chars_of(version)).len() == 0 {
        return Err("环境名称和目标 Python 版本不能为空".to_owned());
    }
    let mut args: Vec<String> = Vec::new();
    push_lit(&mut args, "install");
    push_lit(&mut args, "-n");
    push_lit(&mut args, name);
    let ghost b = string_views(args@);
    args.push(to_string(&concat(&chars_of("python="), &chars_of(version))));
    assert(string_views(args@) =~= b.push("python="@ + version@));
    let ch = channel.to_owned();
    push_channel_args(&mut args, &ch);
    push_lit(&mut args, "-y");
    assert(string_views(args@) =~= upgrade_python_args_of(name@, version@, channel@));
    let mut dry = args.clone();
    assert(string_views(dry@) =~= string_views(args@)) by {
        assert forall|i: int| 0 <= i < dry@.len() implies dry@[i] == args@[i] by {
            assert(vstd::pervasive::cloned::<String>(args@[i], dry@[i]));
        }
    }
    push_lit(&mut dry, "--dry-run");
    Ok((args, dry))
}

/// The backup taken before a Python upgrade:
/// `<exports>/<safe name>-before-upgrade-<timestamp>.yml`.
pub fn python_upgrade_backup_file(home: &str, name: &str, timestamp: u128, windows: bool) -> (r: String)
    ensures
        r@ == join_path(
            export_directory_of(home@, windows),
            safe_file_name_of(name@) + "-before-upgrade-"@ + crate::text::decimal(timestamp as nat)
                + ".yml"@,
            windows,
        ),
{
    let dir = export_directory_chars(&chars_of(home), windows);
    let file = concat(
        &concat(
            &concat(&chars_of(safe_file_name(name).as_str()), &chars_of("-before-upgrade-")),
            &crate::text::decimal_exec(timestamp),
        ),
        &chars_of(".yml"),
    );
    to_string(&join_chars(&dir, &file, windows))
}

/// The interpreter after an upgrade runs the requested version: the same
/// text, or, for a version of fewer than three pieces, one that starts with it
/// and a dot.
pub open spec fn version_matches_of(actual: Seq<char>, version: Seq<char>) -> bool {
    actual == version || (split_on(version, '.').len() < 3 && crate::text::starts_with(
        actual,
        version + "."@,
    ))
}

pub fn version_matches(actual: &str, version: &str) -> (r: bool)
    ensures
        r == version_matches_of(actual@, version@),
{
    let a = chars_of(actual);
    let v = chars_of(version);
    eq(&a, &v) || (split_on_exec(&v, '.').len() < 3 && crate::text::starts_with_exec(
        &a,
        &concat(&v, &chars_of(".")),
    ))
}

/// The error when the upgraded interpreter runs another version.
pub fn upgrade_mismatch_message(version: &str, actual: &str, backup: &str) -> (r: String)
    ensures
        r@ == "升级后校验失败：期望 "@ + version@ + "，实际 "@ + actual@ + "；备份位于 "@ + backup@,
{
    let m = concat(&concat(&concat(&concat(&concat(&chars_of("升级后校验失败：期望 "), &chars_of(version)), &chars_of("，实际 ")), &chars_of(actual)), &chars_of("；备份位于 ")), &chars_of(backup));
    to_string(&m)
}

/// The install of the newest `conda` into base, and its dry run.
pub fn upgrade_conda_args() -> (r: (Vec<String>, Vec<String>))
    ensures
        string_views(r.0@) == seq!["install"@, "-n"@, "base"@, "-c"@, "defaults"@, "conda"@, "-y"@],
        string_views(r.1@) == seq![
            "install"@,
            "-n"@,
            "base"@,
            "-c"@,
            "defaults"@,
            "conda"@,
            "-y"@,
            "--dry-run"@,
        ],
{
    let mut a: Vec<String> = Vec::new();
    let mut d: Vec<String> = Vec::new();
    push_lit(&mut a, "install");
    push_lit(&mut a, "-n");
    push_lit(&mut a, "base");
    push_lit(&mut a, "-c");
    push_lit(&mut a, "defaults");
    push_lit(&mut a, "conda");
    push_lit(&mut a, "-y");
    push_lit(&mut d, "install");
    push_lit(&mut d, "-n");
    push_lit(&mut d, "base");
    push_lit(&mut d, "-c");
    push_lit(&mut d, "defaults");
    push_lit(&mut d, "conda");
    push_lit(&mut d, "-y");
    push_lit(&mut d, "--dry-run");
    assert(string_views(a@) =~= seq!["install"@, "-n"@, "base"@, "-c"@, "defaults"@, "conda"@, "-y"@]);
    assert(string_views(d@) =~= seq![
        "install"@,
        "-n"@,
        "base"@,
        "-c"@,
        "defaults"@,
        "conda"@,
        "-y"@,
        "--dry-run"@,
    ]);
    (a, d)
}

/// The backup taken before upgrading Conda: `<exports>/base-before-conda-upgrade-<timestamp>.yml`.
pub fn conda_upgrade_backup_file(home: &str, timestamp: u128, windows: bool) -> (r: String)
    ensures
        r@ == join_path(
            export_directory_of(home@, windows),
            "base-before-conda-upgrade-"@ + crate::text::decimal(timestamp as nat) + ".yml"@,
            windows,
        ),
{
    let dir = export_directory_chars(&chars_of(home), windows);
    let file = concat(&concat(&chars_of("base-before-conda-upgrade-"), &crate::text::decimal_exec(timestamp)), &chars_of(".yml"));
    to_string(&join_chars(&dir, &file, windows))
}

/// The result of a Conda upgrade: its outputs, the versions before and after
/// and the backup, one per line.
pub fn conda_upgraded_result(
    command: String,
    stdout: String,
    stderr: String,
    before: &str,
    after: &str,
    backup: &str,
) -> (r: OperationResult)
    ensures
        r.ok,
        r.message@ == "Conda 核心包升级完成"@,
        r.command@ == command@,
        r.output@ == crate::text::join(
            seq![
                stdout@,
                stderr@,
                "升级前："@ + before@,
                "升级后："@ + after@,
                "备份："@ + backup@,
            ].filter(crate::text::is_nonempty()),
            "\n"@,
        ),
{
    let mut parts: Vec<String> = Vec::new();
    parts.push(stdout);
    parts.push(stderr);
    parts.push(to_string(&concat(&chars_of("升级前："), &chars_of(before))));
    parts.push(to_string(&concat(&chars_of("升级后："), &chars_of(after))));
    parts.push(to_string(&concat(&chars_of("备份："), &chars_of(backup))));
    let ghost pv = string_views(parts@);
    assert(pv =~= seq![
        stdout@,
        stderr@,
        "升级前："@ + before@,
        "升级后："@ + after@,
        "备份："@ + backup@,
    ]);
    let output = join_filled(parts, "\n", false);
    OperationResult { ok: true, message: "Conda 核心包升级完成".to_owned(), command, output }
}

/// A successful result with a fixed message.
pub fn completed(message: &str, command: String, output: String) -> (r: OperationResult)
    ensures
        r.ok,
        r.message@ == message@,
        r.command@ == command@,
        r.output@ == output@,
{
    OperationResult { ok: true, message: message.to_owned(), command, output }
}

/// The result of a removed environment.
pub fn removed_result(name: &str, command: String, stdout: String) -> (r: OperationResult)
    ensures
        r.ok,
        r.message@ == "Conda 环境 "@ + name@ + " 已删除"@,
        r.command@ == command@,
        r.output@ == stdout@,
{
    let message = to_string(&concat(&concat(&chars_of("Conda 环境 "), &chars_of(name)), &chars_of(" 已删除")));
    OperationResult { ok: true, message, command, output: stdout }
}

/// "Export all" needs a directory.
pub fn export_all_check(directory: &str) -> (r: Result<(), String>)
    ensures
        r is Ok <==> trim(directory@).len() > 0,
        r matches Err(e) ==> e@ == "缺少导出目录"@,
{
    if trim_exec(&chars_of(directory)).len() == 0 {
        Err("缺少导出目录".to_owned())
    } else {
        Ok(())
    }
}

/// The result of exporting every environment: the outputs, a blank line apart.
pub fn exported_all_result(outputs: &Vec<String>) -> (r: OperationResult)
    ensures
        r.ok,
        r.message@ == "全部 Conda 环境导出完成"@,
        r.command@ == "conda env export (all)"@,
        r.output@ == crate::text::join(string_views(outputs@), "\n\n"@),
{
    let mut pv: Vec<Vec<char>> = Vec::new();
    let mut i: usize = 0;
    while i < outputs.len()
        invariant
            i <= outputs.len(),
            views(pv@) == string_views(outputs@).subrange(0, i as int),
        decreases outputs.len() - i,
    {
        let ghost b = views(pv@);
        pv.push(chars_of(outputs[i].as_str()));
        assert(views(pv@) =~= b.push(outputs@[i as int]@));
        i = i + 1;
        assert(views(pv@) =~= string_views(outputs@).subrange(0, i as int));
    }
    assert(string_views(outputs@).subrange(0, outputs.len() as int) =~= string_views(outputs@));
    let output = to_string(&crate::text::join_exec(&pv, &chars_of("\n\n")));
    OperationResult {
        ok: true,
        message: "全部 Conda 环境导出完成".to_owned(),
        command: "conda env export (all)".to_owned(),
        output,
    }
}

/// A file of `conda-meta` that records an installed package: its name ends
/// with `.json`.
pub fn is_package_record(file_name: &str) -> (r: bool)
    ensures
        r == crate::text::ends_with(file_name@, ".json"@),
{
    crate::text::ends_with_exec(&chars_of(file_name), &chars_of(".json"))
}

/// An environment that the details give no name is named after its folder
/// exactly when that folder lies in a folder named `envs` (ASCII case aside),
/// and `base` otherwise (the root installation).
pub proof fn law_unnamed_environment_names(
    envs: Seq<Seq<char>>,
    ds: Seq<(Seq<char>, MetaView)>,
    active: Seq<char>,
    windows: bool,
    k: int,
)
    requires
        0 <= k < entries_of(envs, ds, active, windows).len(),
        !(details_get(ds, entries_of(envs, ds, active, windows)[k].1) matches Some((Some(_), _))),
    ensures
        ({
            let e = entries_of(envs, ds, active, windows)[k];
            let names = crate::path::path_names(e.1, windows);
            let in_envs = names.len() >= 2 && lower(names[names.len() - 2]) == lower("envs"@);
            &&& in_envs && names.last() != ".."@ ==> e.0 == names.last()
            &&& !in_envs ==> e.0 == "base"@
        }),
{
    reveal_strlit("..");
    reveal_strlit("envs");
    let e = entries_of(envs, ds, active, windows)[k];
    let names = crate::path::path_names(e.1, windows);
    if names.len() >= 2 && names[names.len() - 2] == ".."@ {
        assert(lower(names[names.len() - 2]).len() == 2);
    }
}

/// A clone is made with `conda create --clone` only when Python and the
/// packages are both cloned and no Python version is asked for; otherwise the
/// source is exported and the export rewritten for the clone.
pub proof fn law_partial_clone_goes_through_export(
    name: Seq<char>,
    source: Option<Seq<char>>,
    target_python: Option<Seq<char>>,
    clone_python: bool,
    clone_packages: bool,
    python_version: Option<Seq<char>>,
    channel: Option<Seq<char>>,
    packages: Seq<Seq<char>>,
)
    requires
        create_plan_of(name, "clone"@, source, target_python, clone_python, clone_packages, python_version, channel, packages) is Ok,
    ensures
        ({
            let p = create_plan_of(name, "clone"@, source, target_python, clone_python, clone_packages, python_version, channel, packages)->Ok_0;
            let whole = clone_python && clone_packages && (target_python matches Some(t) ==> trim(t).len() == 0);
            &&& whole <==> p is Run
            &&& p matches CreatePlanView::Run(a) ==> a.contains("--clone"@)
            &&& !whole ==> (p matches CreatePlanView::CloneByExport(a, _) && a[0] == "env"@ && a[1] == "export"@)
        }),
{
    let p = create_plan_of(name, "clone"@, source, target_python, clone_python, clone_packages, python_version, channel, packages)->Ok_0;
    if let CreatePlanView::Run(a) = p {
        assert(a[3] == "--clone"@);
    }
}

/// The numbers of a version: its dot-separated pieces as numbers.
pub open spec fn release_numbers(v: Seq<char>) -> Seq<u32> {
    split_on(v, '.').map_values(|p: Seq<char>| piece_value(p))
}

/// Each version is not lexicographically smaller, by its numbers, than any
/// that comes after it.
pub open spec fn newest_first(s: Seq<Seq<char>>) -> bool {
    forall|i: int, j: int| 0 <= i < j < s.len() ==> !lex_lt(release_numbers(#[trigger] s[i]), release_numbers(#[trigger] s[j]))
}

proof fn lemma_dedup_keeps_order(s: Seq<Seq<char>>)
    requires
        newest_first(s),
    ensures
        newest_first(dedup_adjacent(s)),
        forall|i: int| 0 <= i < dedup_adjacent(s).len() ==> s.contains(#[trigger] dedup_adjacent(s)[i]),
    decreases s.len(),
{
    if s.len() > 1 {
        let q = s.drop_last();
        assert(newest_first(q)) by {
            assert forall|i: int, j: int| 0 <= i < j < q.len() implies !lex_lt(
                release_numbers(#[trigger] q[i]),
                release_numbers(#[trigger] q[j]),
            ) by {
                assert(q[i] == s[i] && q[j] == s[j]);
            }
        }
        lemma_dedup_keeps_order(q);
        let d = dedup_adjacent(q);
        assert forall|i: int| 0 <= i < d.len() implies s.contains(#[trigger] d[i]) by {
            let k = choose|k: int| 0 <= k < q.len() && q[k] == d[i];
            assert(s[k] == d[i]);
        }
        if s.last() != s[s.len() - 2] {
            let r = d.push(s.last());
            assert forall|i: int, j: int| 0 <= i < j < r.len() implies !lex_lt(
                release_numbers(#[trigger] r[i]),
                release_numbers(#[trigger] r[j]),
            ) by {
                if j == r.len() - 1 {
                    let k = choose|k: int| 0 <= k < q.len() && q[k] == d[i];
                    assert(s[k] == r[i]);
                    assert(s[s.len() - 1] == r[j]);
                } else {
                    assert(r[i] == d[i] && r[j] == d[j]);
                }
            }
            assert forall|i: int| 0 <= i < r.len() implies s.contains(#[trigger] r[i]) by {
                if i == r.len() - 1 {
                    assert(s[s.len() - 1] == r[i]);
                } else {
                    assert(r[i] == d[i]);
                }
            }
        }
    }
}

/// The Python versions that the search lists come newest first: a version
/// whose numbers are lexicographically greater (3.12.4 over 3.12.0, 3.13
/// over 3.12.9) always comes before the other.
pub proof fn law_versions_newest_first(parsed: crate::json::JsonValue, listed: Seq<Seq<char>>)
    requires
        exists|sorted: Seq<Seq<char>>|
            {
                &&& sorted_values(sorted, listed_versions(parsed), |v: Seq<char>| version_key(v), true)
                &&& listed == dedup_adjacent(sorted)
            },
    ensures
        newest_first(listed),
{
    let sorted = choose|sorted: Seq<Seq<char>>|
        {
            &&& sorted_values(sorted, listed_versions(parsed), |v: Seq<char>| version_key(v), true)
            &&& listed == dedup_adjacent(sorted)
        };
    assert(newest_first(sorted)) by {
        assert forall|i: int, j: int| 0 <= i < j < sorted.len() implies !lex_lt(
            release_numbers(#[trigger] sorted[i]),
            release_numbers(#[trigger] sorted[j]),
        ) by {
            assert(!crate::sort::goes_before(version_key(sorted[j]), version_key(sorted[i]), true));
        }
    }
    lemma_dedup_keeps_order(sorted);
}

} // verus!
