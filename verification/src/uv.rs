//! uv itself and the Pythons it installs: where they live, how uv is
//! installed and checked, and what may be removed.
use vstd::prelude::*;
use crate::conda::{push_lit, string_views};
use crate::domain::{opt_string_view, OperationResult, UvPythonInstallation};
use crate::path::{has_drive, is_absolute, is_absolute_exec, is_sep, join_chars, join_path, path_names, path_names_exec};
use crate::process::{failure, failure_of, parent_text, parent_text_exec, ProcessOutput};
use crate::sort::{code_points, code_points_exec, lex_lt, sort_values, sorted_values};
use crate::system::strip_prefix_or;
use crate::text::{
    is_space, is_whitespace, lower, lower_exec, contains, contains_exec, keep_filled,
    chars_of, concat, eq, is_ascii_digit, is_ascii_alpha, lines, lines_exec, lower_char, lower_char_exec, slice,
    starts_with, to_string, trim, trim_exec, views,
};

verus! {

broadcast use vstd::seq_lib::group_seq_properties;

/// Where uv keeps the Pythons it installs: `UV_PYTHON_INSTALL_DIR` when set
/// and not empty; else `<APPDATA>\uv\python` on Windows and
/// `<XDG_DATA_HOME or HOME/.local/share>/uv/python` elsewhere (an unset base
/// is the empty path).
pub open spec fn python_install_directory_of(
    install_dir: Option<Seq<char>>,
    app_data: Option<Seq<char>>,
    data_home: Option<Seq<char>>,
    home: Option<Seq<char>>,
    windows: bool,
) -> Seq<char> {
    match install_dir {
        Some(d) if d.len() > 0 => d,
        _ => {
            let base = if windows {
                match app_data {
                    Some(a) => a,
                    None => seq![],
                }
            } else {
                match data_home {
                    Some(x) => x,
                    None => match home {
                        Some(h) => join_path(join_path(h, ".local"@, false), "share"@, false),
                        None => seq![],
                    },
                }
            };
            join_path(join_path(base, "uv"@, windows), "python"@, windows)
        },
    }
}

pub fn python_install_directory(
    install_dir: Option<String>,
    app_data: Option<String>,
    data_home: Option<String>,
    home: Option<String>,
    windows: bool,
) -> (r: String)
    ensures
        r@ == python_install_directory_of(
            opt_string_view(install_dir),
            opt_string_view(app_data),
            opt_string_view(data_home),
            opt_string_view(home),
            windows,
        ),
{
    match &install_dir {
        Some(d) => {
            if !d.as_str().is_empty() {
                return d.clone();
            }
        },
        None => {},
    }
    let base: Vec<char> = if windows {
        match &app_data {
            Some(a) => chars_of(a.as_str()),
            None => Vec::new(),
        }
    } else {
        match &data_home {
            Some(x) => chars_of(x.as_str()),
            None => match &home {
                Some(h) => join_chars(&join_chars(&chars_of(h.as_str()), &chars_of(".local"), false), &chars_of("share"), false),
                None => Vec::new(),
            },
        }
    };
    to_string(&join_chars(&join_chars(&base, &chars_of("uv"), windows), &chars_of("python"), windows))
}

/// The first line of `a`, then of `b`, that is not blank.
pub open spec fn first_filled_line(ls: Seq<Seq<char>>) -> Option<Seq<char>>
    decreases ls.len(),
{
    if ls.len() == 0 {
        None
    } else if trim(ls[0]).len() > 0 {
        Some(ls[0])
    } else {
        first_filled_line(ls.drop_first())
    }
}

fn first_filled_line_exec(ls: &Vec<Vec<char>>) -> (r: Option<Vec<char>>)
    ensures
        crate::yaml::vec_opt_view(r) == first_filled_line(views(ls@)),
{
    let ghost all = views(ls@);
    let mut i: usize = 0;
    assert(all.skip(0) =~= all);
    while i < ls.len()
        invariant
            i <= ls.len(),
            all == views(ls@),
            first_filled_line(all) == first_filled_line(all.skip(i as int)),
        decreases ls.len() - i,
    {
        assert(all.skip(i as int)[0] == ls@[i as int]@);
        if trim_exec(&ls[i]).len() > 0 {
            return Some(ls[i].clone());
        }
        assert(all.skip(i as int).drop_first() =~= all.skip(i + 1));
        i = i + 1;
    }
    None
}

/// The first line that is not blank among the lines of stdout, then of stderr.
pub open spec fn first_answer_line(stdout: Seq<char>, stderr: Seq<char>) -> Option<Seq<char>> {
    first_filled_line(lines(stdout) + lines(stderr))
}

pub(crate) fn first_answer_line_exec(stdout: &str, stderr: &str) -> (r: Option<Vec<char>>)
    ensures
        crate::yaml::vec_opt_view(r) == first_answer_line(stdout@, stderr@),
{
    let mut a = lines_exec(&chars_of(stdout));
    let b = lines_exec(&chars_of(stderr));
    let ghost va = views(a@);
    let mut i: usize = 0;
    while i < b.len()
        invariant
            i <= b.len(),
            views(a@) == va + views(b@).take(i as int),
        decreases b.len() - i,
    {
        let ghost before = views(a@);
        a.push(b[i].clone());
        assert(views(a@) =~= before.push(b@[i as int]@));
        i = i + 1;
        assert(views(b@).take(i as int) =~= views(b@).take(i - 1).push(b@[i - 1]@));
    }
    assert(views(b@).take(b.len() as int) =~= views(b@));
    assert(views(a@) =~= lines(stdout@) + lines(stderr@)) by {
        assert(views(a@) == va + views(b@));
    }
    first_filled_line_exec(&a)
}

/// The version an interpreter printed for `--version`: its first line that
/// is not blank, trimmed, without `Python `; nothing when that is empty or
/// the run failed.
pub open spec fn installed_python_version_of(ok: bool, stdout: Seq<char>, stderr: Seq<char>) -> Option<Seq<char>> {
    if !ok {
        None
    } else {
        match first_answer_line(stdout, stderr) {
            None => None,
            Some(l) => {
                let v = trim(strip_prefix_or(trim(l), "Python "@));
                if v.len() > 0 {
                    Some(v)
                } else {
                    None
                }
            },
        }
    }
}

pub fn installed_python_version(output: &ProcessOutput) -> (r: Option<String>)
    ensures
        opt_string_view(r) == installed_python_version_of(output.ok, output.stdout@, output.stderr@),
{
    if !output.ok {
        return None;
    }
    match first_answer_line_exec(output.stdout.as_str(), output.stderr.as_str()) {
        None => None,
        Some(l) => {
            let t = trim_exec(&l);
            let p = chars_of("Python ");
            let stripped = if crate::text::starts_with_exec(&t, &p) {
                slice(&t, p.len(), t.len())
            } else {
                t
            };
            let v = trim_exec(&stripped);
            if v.len() > 0 {
                Some(to_string(&v))
            } else {
                None
            }
        },
    }
}

/// What `uv --version` answered: its first line that is not blank, trimmed.
pub open spec fn uv_version_of(stdout: Seq<char>, stderr: Seq<char>) -> Option<Seq<char>> {
    match first_answer_line(stdout, stderr) {
        Some(l) => Some(trim(l)),
        None => None,
    }
}

pub fn uv_version_text(output: &ProcessOutput) -> (r: Option<String>)
    ensures
        opt_string_view(r) == uv_version_of(output.stdout@, output.stderr@),
{
    match first_answer_line_exec(output.stdout.as_str(), output.stderr.as_str()) {
        Some(l) => Some(to_string(&trim_exec(&l))),
        None => None,
    }
}

/// An order-reversing code of a text of code points: each point `c` as
/// `0x10FFFF - c`, then a mark above them all. A longer text that extends a
/// shorter one comes first, as in the reversed order.
pub open spec fn reversed_key(s: Seq<u32>) -> Seq<u32> {
    s.map_values(|c: u32| (0x10FFFF - c) as u32).push(0x110000u32)
}

pub open spec fn code_point_range(s: Seq<u32>) -> bool {
    forall|i: int| 0 <= i < s.len() ==> #[trigger] s[i] <= 0x10FFFF
}

/// Comparing reversed codes followed by anything is comparing the texts in
/// reverse, and then what follows.
pub proof fn lemma_reversed_key_order(a: Seq<u32>, b: Seq<u32>, x: Seq<u32>, y: Seq<u32>)
    requires
        code_point_range(a),
        code_point_range(b),
    ensures
        lex_lt(reversed_key(a) + x, reversed_key(b) + y) == (lex_lt(b, a) || (a == b && lex_lt(x, y))),
    decreases a.len(),
{
    let ka = reversed_key(a) + x;
    let kb = reversed_key(b) + y;
    assert(ka.len() > 0 && kb.len() > 0);
    if a.len() == 0 && b.len() == 0 {
        assert(ka.drop_first() =~= x);
        assert(kb.drop_first() =~= y);
        assert(a =~= b);
    } else if a.len() == 0 {
        assert(ka[0] == 0x110000u32);
        assert(b[0] <= 0x10FFFF);
        assert(kb[0] == (0x10FFFF - b[0]) as u32);
    } else if b.len() == 0 {
        assert(kb[0] == 0x110000u32);
        assert(a[0] <= 0x10FFFF);
        assert(ka[0] == (0x10FFFF - a[0]) as u32);
    } else {
        assert(a[0] <= 0x10FFFF && b[0] <= 0x10FFFF);
        assert(ka[0] == (0x10FFFF - a[0]) as u32);
        assert(kb[0] == (0x10FFFF - b[0]) as u32);
        if a[0] == b[0] {
            assert(ka.drop_first() =~= reversed_key(a.drop_first()) + x);
            assert(kb.drop_first() =~= reversed_key(b.drop_first()) + y);
            assert(code_point_range(a.drop_first()));
            assert(code_point_range(b.drop_first()));
            lemma_reversed_key_order(a.drop_first(), b.drop_first(), x, y);
            if a.drop_first() == b.drop_first() {
                assert(a =~= b);
            }
        } else {
            assert(a != b);
        }
    }
}

/// The sort key of an installation: the version in reverse, then the path.
pub open spec fn installation_key(u: UvPythonInstallation) -> Seq<u32> {
    reversed_key(code_points(u.version@)) + code_points(u.path@)
}

pub open spec fn installation_key_fn() -> spec_fn(UvPythonInstallation) -> Seq<u32> {
    |u: UvPythonInstallation| installation_key(u)
}

/// `a` is listed before `b`: a greater version, or the same version and a
/// smaller path.
pub open spec fn installation_before(a: UvPythonInstallation, b: UvPythonInstallation) -> bool {
    lex_lt(code_points(b.version@), code_points(a.version@)) || (code_points(a.version@) == code_points(
        b.version@,
    ) && lex_lt(code_points(a.path@), code_points(b.path@)))
}

proof fn lemma_code_point_range(s: Seq<char>)
    ensures
        code_point_range(code_points(s)),
{
    assert forall|i: int| 0 <= i < code_points(s).len() implies #[trigger] code_points(s)[i] <= 0x10FFFF by {
        let c = s[i];
        vstd::utf8::char_is_scalar(c);
    }
}

/// The key order is the listing order.
pub proof fn lemma_installation_key_order(a: UvPythonInstallation, b: UvPythonInstallation)
    ensures
        lex_lt(installation_key(a), installation_key(b)) == installation_before(a, b),
{
    lemma_code_point_range(a.version@);
    lemma_code_point_range(b.version@);
    lemma_reversed_key_order(code_points(a.version@), code_points(b.version@), code_points(a.path@), code_points(b.path@));
}

fn installation_key_exec(u: &UvPythonInstallation) -> (r: Vec<u32>)
    ensures
        r@ == installation_key(*u),
{
    let v = code_points_exec(&chars_of(u.version.as_str()));
    let mut k: Vec<u32> = Vec::new();
    let mut i: usize = 0;
    proof {
        lemma_code_point_range(u.version@);
    }
    while i < v.len()
        invariant
            i <= v.len(),
            v@ == code_points(u.version@),
            code_point_range(v@),
            k@ == v@.take(i as int).map_values(|c: u32| (0x10FFFF - c) as u32),
        decreases v.len() - i,
    {
        assert(v@[i as int] <= 0x10FFFF);
        k.push(0x10FFFF - v[i]);
        i = i + 1;
        assert(k@ =~= v@.take(i as int).map_values(|c: u32| (0x10FFFF - c) as u32));
    }
    assert(v@.take(v.len() as int) =~= v@);
    k.push(0x110000);
    let p = code_points_exec(&chars_of(u.path.as_str()));
    let mut j: usize = 0;
    let ghost head = k@;
    while j < p.len()
        invariant
            j <= p.len(),
            k@ == head + p@.take(j as int),
        decreases p.len() - j,
    {
        k.push(p[j]);
        j = j + 1;
        assert(k@ =~= head + p@.take(j as int));
    }
    assert(p@.take(p.len() as int) =~= p@);
    k
}

/// The installations, the greatest version first and, within a version, by
/// path; the order among equal entries is kept.
pub fn sort_installations(items: Vec<UvPythonInstallation>) -> (r: Vec<UvPythonInstallation>)
    ensures
        sorted_values(r@, items@, installation_key_fn(), false),
        forall|i: int, j: int| 0 <= i < j < r@.len() ==> !installation_before(#[trigger] r@[j], #[trigger] r@[i]),
{
    let ghost s = items@;
    let mut rest = items;
    let mut pairs: Vec<(Vec<u32>, UvPythonInstallation)> = Vec::new();
    let mut n: usize = 0;
    assert(rest@ =~= s.subrange(0, s.len() as int));
    assert(s.len() == rest.len());
    while rest.len() > 0
        invariant
            n + rest.len() == s.len(),
            s.len() <= usize::MAX,
            rest@ == s.subrange(n as int, s.len() as int),
            crate::sort::values_of(pairs@) == s.subrange(0, n as int),
            forall|i: int| 0 <= i < pairs@.len() ==> (#[trigger] pairs@[i]).0@ == installation_key_fn()(
                pairs@[i].1,
            ),
        decreases rest.len(),
    {
        let ghost before = crate::sort::values_of(pairs@);
        let u = rest.remove(0);
        assert(u == s[n as int]);
        let k = installation_key_exec(&u);
        pairs.push((k, u));
        assert(crate::sort::values_of(pairs@) =~= before.push(s[n as int]));
        n = n + 1;
        assert(rest@ =~= s.subrange(n as int, s.len() as int));
    }
    assert(s.subrange(0, n as int) =~= s);
    let r = sort_values(pairs, false, Ghost(installation_key_fn()));
    assert forall|i: int, j: int| 0 <= i < j < r@.len() implies !installation_before(
        #[trigger] r@[j],
        #[trigger] r@[i],
    ) by {
        lemma_installation_key_order(r@[j], r@[i]);
        assert(!crate::sort::goes_before(installation_key_fn()(r@[j]), installation_key_fn()(r@[i]), false));
    }
    r
}

/// The drive (any case) and whether a root follows: the head of a path that
/// `Path::strip_prefix` compares besides the names.
pub open spec fn path_head(p: Seq<char>, windows: bool) -> (Option<char>, bool) {
    if has_drive(p, windows) {
        (Some(lower_char(p[0])), p.len() > 2 && is_sep(p[2], windows))
    } else {
        (None, p.len() > 0 && is_sep(p[0], windows))
    }
}

fn path_head_exec(p: &Vec<char>, windows: bool) -> (r: (Option<char>, bool))
    ensures
        r == path_head(p@, windows),
{
    if crate::path::has_drive_exec(p, windows) {
        (Some(lower_char_exec(p[0])), p.len() > 2 && crate::path::is_sep_exec(p[2], windows))
    } else {
        (None, p.len() > 0 && crate::path::is_sep_exec(p[0], windows))
    }
}

/// `path` is a direct child of `root`: the same drive and root, and the
/// names of `root` followed by one more.
pub open spec fn direct_child_of(path: Seq<char>, root: Seq<char>, windows: bool) -> bool {
    let pn = path_names(path, windows);
    let rn = path_names(root, windows);
    path_head(path, windows) == path_head(root, windows) && pn.len() == rn.len() + 1 && pn.take(
        rn.len() as int,
    ) == rn
}

pub fn is_direct_child(path: &str, root: &str, windows: bool) -> (r: bool)
    ensures
        r == direct_child_of(path@, root@, windows),
{
    let p = chars_of(path);
    let q = chars_of(root);
    let (pd, pr) = path_head_exec(&p, windows);
    let (qd, qr) = path_head_exec(&q, windows);
    let same_drive = match (pd, qd) {
        (Some(a), Some(b)) => a == b,
        (None, None) => true,
        _ => false,
    };
    if !same_drive || pr != qr {
        return false;
    }
    let pn = path_names_exec(&p, windows);
    let rn = path_names_exec(&q, windows);
    let ghost pv = pn@.map_values(|x: Vec<char>| x@);
    let ghost rv = rn@.map_values(|x: Vec<char>| x@);
    if pn.len() == 0 || pn.len() - 1 != rn.len() {
        return false;
    }
    let mut i: usize = 0;
    while i < rn.len()
        invariant
            i <= rn.len(),
            pn.len() == rn.len() + 1,
            pv == pn@.map_values(|x: Vec<char>| x@),
            rv == rn@.map_values(|x: Vec<char>| x@),
            pv.take(i as int) == rv.take(i as int),
            pv == path_names(path@, windows),
            rv == path_names(root@, windows),
            path_head(path@, windows) == path_head(root@, windows),
        decreases rn.len() - i,
    {
        if !eq(&pn[i], &rn[i]) {
            assert(pv.take(rn.len() as int)[i as int] != rv[i as int]);
            return false;
        }
        i = i + 1;
        assert(pv.take(i as int) =~= pv.take(i - 1).push(pv[i - 1]));
        assert(rv.take(i as int) =~= rv.take(i - 1).push(rv[i - 1]));
    }
    assert(rv.take(rn.len() as int) =~= rv);
    true
}

/// A Python that uv installed: a directory right under uv's Python folder
/// (both as resolved paths) that holds its interpreter.
pub fn is_uv_python_installation(path: &str, root: &str, is_dir: bool, has_python: bool, windows: bool) -> (r: bool)
    ensures
        r == (direct_child_of(path@, root@, windows) && is_dir && has_python),
{
    is_direct_child(path, root, windows) && is_dir && has_python
}

/// The interpreter inside an installation, as uv lays it out.
pub open spec fn installation_python_of(directory: Seq<char>, windows: bool) -> Seq<char> {
    if windows {
        join_path(directory, "python.exe"@, true)
    } else {
        join_path(directory, "bin/python"@, false)
    }
}

pub fn installation_python(directory: &str, windows: bool) -> (r: String)
    ensures
        r@ == installation_python_of(directory@, windows),
{
    if windows {
        to_string(&join_chars(&chars_of(directory), &chars_of("python.exe"), true))
    } else {
        to_string(&join_chars(&chars_of(directory), &chars_of("bin/python"), false))
    }
}

/// Only a Python that uv installed may be removed here.
pub fn uv_python_removal_check(path: &str, root: &str, is_dir: bool, has_python: bool, windows: bool) -> (r: Result<
    (),
    String,
>)
    ensures
        r is Ok == (direct_child_of(path@, root@, windows) && is_dir && has_python),
        r matches Err(m) ==> m@ == "所选目录不在 uv 的 Python 安装目录中，已拒绝卸载"@,
{
    if is_uv_python_installation(path, root, is_dir, has_python, windows) {
        Ok(())
    } else {
        Err("所选目录不在 uv 的 Python 安装目录中，已拒绝卸载".to_owned())
    }
}

/// The result of a removed uv Python.
pub fn uv_python_removed(path: String) -> (r: OperationResult)
    ensures
        r.ok && r.message@ == "uv Python 已卸载"@ && r.command@ == "remove "@ + path@ && r.output@ == path@,
{
    let command = to_string(&concat(&chars_of("remove "), &chars_of(path.as_str())));
    OperationResult { ok: true, message: "uv Python 已卸载".to_owned(), command, output: path }
}

/// A character a uv version may hold.
pub open spec fn version_char_ok(c: char) -> bool {
    is_ascii_alpha(c) || is_ascii_digit(c) || c == '.' || c == '-' || c == '_' || c == '+'
}

/// The requested uv version: none when absent or blank; else trimmed, made
/// of letters, digits and `.-_+`, and starting with a digit.
pub open spec fn validated_version_of(version: Option<Seq<char>>) -> Result<Option<Seq<char>>, Seq<char>> {
    match version {
        None => Ok(None),
        Some(v) => {
            let t = trim(v);
            if t.len() == 0 {
                Ok(None)
            } else if (forall|i: int| 0 <= i < t.len() ==> version_char_ok(#[trigger] t[i])) && is_ascii_digit(t[0]) {
                Ok(Some(t))
            } else {
                Err("uv 版本格式无效，例如 0.8.17"@)
            }
        },
    }
}

pub open spec fn opt_result_view(r: Result<Option<String>, String>) -> Result<Option<Seq<char>>, Seq<char>> {
    match r {
        Ok(o) => Ok(opt_string_view(o)),
        Err(e) => Err(e@),
    }
}

pub fn validate_version(version: Option<String>) -> (r: Result<Option<String>, String>)
    ensures
        opt_result_view(r) == validated_version_of(opt_string_view(version)),
{
    let v = match &version {
        None => return Ok(None),
        Some(v) => trim_exec(&chars_of(v.as_str())),
    };
    if v.len() == 0 {
        return Ok(None);
    }
    let mut i: usize = 0;
    while i < v.len()
        invariant
            i <= v.len(),
            forall|k: int| 0 <= k < i ==> version_char_ok(#[trigger] v@[k]),
            v@.len() > 0,
            validated_version_of(opt_string_view(version)) == (if (forall|k: int|
                0 <= k < v@.len() ==> version_char_ok(#[trigger] v@[k])) && is_ascii_digit(v@[0]) {
                Ok(Some(v@))
            } else {
                Err::<Option<Seq<char>>, Seq<char>>("uv 版本格式无效，例如 0.8.17"@)
            }),
        decreases v.len() - i,
    {
        let c = v[i];
        let ok = ('a' <= c && c <= 'z') || ('A' <= c && c <= 'Z') || ('0' <= c && c <= '9') || c == '.' || c == '-'
            || c == '_' || c == '+';
        if !ok {
            assert(!version_char_ok(v@[i as int]));
            return Err("uv 版本格式无效，例如 0.8.17".to_owned());
        }
        i = i + 1;
    }
    if !('0' <= v[0] && v[0] <= '9') {
        return Err("uv 版本格式无效，例如 0.8.17".to_owned());
    }
    Ok(Some(to_string(&v)))
}

/// How uv is looked up on the path: `where.exe uv.exe` or `which uv`.
pub fn uv_lookup(windows: bool) -> (r: (String, Vec<String>))
    ensures
        r.0@ == (if windows {
            "where.exe"@
        } else {
            "which"@
        }),
        string_views(r.1@) == seq![
            if windows {
                "uv.exe"@
            } else {
                "uv"@
            },
        ],
{
    let mut args: Vec<String> = Vec::new();
    if windows {
        push_lit(&mut args, "uv.exe");
        ("where.exe".to_owned(), args)
    } else {
        push_lit(&mut args, "uv");
        ("which".to_owned(), args)
    }
}

/// A line of the lookup that names a usable uv: not blank, not a store alias.
pub open spec fn usable_lookup_line() -> spec_fn(Seq<char>) -> bool {
    |l: Seq<char>| l.len() > 0 && !contains(lower(l), "\\windowsapps\\"@)
}

/// The uv paths the lookup printed, trimmed, without blanks and store aliases.
pub open spec fn lookup_paths_of(output: Seq<char>) -> Seq<Seq<char>> {
    lines(output).map_values(|l: Seq<char>| trim(l)).filter(usable_lookup_line())
}

/// The name of the uv program.
pub open spec fn uv_exe(windows: bool) -> Seq<char> {
    if windows {
        "uv.exe"@
    } else {
        "uv"@
    }
}

/// The places where uv may be, in order: the saved path, what the lookup
/// printed, `~/.local/bin` and `~/.cargo/bin`, then `%LOCALAPPDATA%\uv` and
/// `%LOCALAPPDATA%\bin`.
pub open spec fn uv_candidates_of(
    saved: Option<Seq<char>>,
    lookup_output: Seq<char>,
    home: Option<Seq<char>>,
    local_app_data: Option<Seq<char>>,
    windows: bool,
) -> Seq<Seq<char>> {
    (match saved {
        Some(s) => seq![s],
        None => seq![],
    }) + lookup_paths_of(lookup_output) + (match home {
        Some(h) => seq![
            join_path(join_path(join_path(h, ".local"@, windows), "bin"@, windows), uv_exe(windows), windows),
            join_path(join_path(join_path(h, ".cargo"@, windows), "bin"@, windows), uv_exe(windows), windows),
        ],
        None => seq![],
    }) + (match local_app_data {
        Some(l) => seq![
            join_path(join_path(l, "uv"@, windows), "uv.exe"@, windows),
            join_path(join_path(l, "bin"@, windows), "uv.exe"@, windows),
        ],
        None => seq![],
    })
}

fn lookup_paths(output: &str) -> (r: Vec<Vec<char>>)
    ensures
        views(r@) == lookup_paths_of(output@),
{
    let ls = lines_exec(&chars_of(output));
    let ghost lv = ls@.map_values(|l: Vec<char>| l@);
    let ghost tv = lv.map_values(|l: Seq<char>| trim(l));
    let mut out: Vec<Vec<char>> = Vec::new();
    let mut i: usize = 0;
    assert(tv.take(0).filter(usable_lookup_line()) =~= Seq::<Seq<char>>::empty()) by {
        reveal(Seq::filter);
    }
    assert(views(out@) =~= Seq::<Seq<char>>::empty());
    while i < ls.len()
        invariant
            i <= ls.len(),
            lv == ls@.map_values(|l: Vec<char>| l@),
            tv == lv.map_values(|l: Seq<char>| trim(l)),
            views(out@) == tv.take(i as int).filter(usable_lookup_line()),
        decreases ls.len() - i,
    {
        let t = trim_exec(&ls[i]);
        assert(lv[i as int] == ls@[i as int]@);
        assert(t@ == tv[i as int]);
        let keep = t.len() > 0 && !contains_exec(&lower_exec(&t), &chars_of("\\windowsapps\\"));
        proof {
            assert(tv.take(i + 1) =~= tv.take(i as int).push(tv[i as int]));
            tv.take(i as int).lemma_filter_push(tv[i as int], usable_lookup_line());
        }
        if keep {
            let ghost before = views(out@);
            out.push(t);
            assert(views(out@) =~= before.push(tv[i as int]));
        }
        i = i + 1;
    }
    assert(tv.take(ls.len() as int) =~= tv);
    out
}

pub fn uv_candidates(
    saved: Option<String>,
    lookup_output: &str,
    home: Option<String>,
    local_app_data: Option<String>,
    windows: bool,
) -> (r: Vec<String>)
    ensures
        string_views(r@) == uv_candidates_of(
            opt_string_view(saved),
            lookup_output@,
            opt_string_view(home),
            opt_string_view(local_app_data),
            windows,
        ),
{
    let mut out: Vec<String> = Vec::new();
    match &saved {
        Some(s) => out.push(s.clone()),
        None => {},
    }
    let ghost a = string_views(out@);
    let found = lookup_paths(lookup_output);
    let mut i: usize = 0;
    while i < found.len()
        invariant
            i <= found.len(),
            string_views(out@) == a + views(found@).take(i as int),
        decreases found.len() - i,
    {
        let ghost before = string_views(out@);
        out.push(to_string(&found[i]));
        assert(string_views(out@) =~= before.push(found@[i as int]@));
        i = i + 1;
        assert(views(found@).take(i as int) =~= views(found@).take(i - 1).push(found@[i - 1]@));
    }
    assert(views(found@).take(found.len() as int) =~= views(found@));
    let ghost b = string_views(out@);
    let exe = if windows {
        chars_of("uv.exe")
    } else {
        chars_of("uv")
    };
    match &home {
        Some(h) => {
            let hc = chars_of(h.as_str());
            let x = join_chars(&join_chars(&join_chars(&hc, &chars_of(".local"), windows), &chars_of("bin"), windows), &exe, windows);
            let y = join_chars(&join_chars(&join_chars(&hc, &chars_of(".cargo"), windows), &chars_of("bin"), windows), &exe, windows);
            out.push(to_string(&x));
            out.push(to_string(&y));
            assert(string_views(out@) =~= b + seq![x@, y@]);
        },
        None => {
            assert(string_views(out@) =~= b + Seq::<Seq<char>>::empty());
        },
    }
    let ghost c = string_views(out@);
    match &local_app_data {
        Some(l) => {
            let lc = chars_of(l.as_str());
            let x = join_chars(&join_chars(&lc, &chars_of("uv"), windows), &chars_of("uv.exe"), windows);
            let y = join_chars(&join_chars(&lc, &chars_of("bin"), windows), &chars_of("uv.exe"), windows);
            out.push(to_string(&x));
            out.push(to_string(&y));
            assert(string_views(out@) =~= c + seq![x@, y@]);
        },
        None => {
            assert(string_views(out@) =~= c + Seq::<Seq<char>>::empty());
        },
    }
    out
}

/// The text of the installer's URL: `https://astral.sh/uv[/<version>]`.
pub open spec fn base_url_of(version: Option<Seq<char>>) -> Seq<char> {
    match version {
        Some(v) => "https://astral.sh/uv/"@ + v,
        None => "https://astral.sh/uv"@,
    }
}

/// The program that runs the installer script.
pub open spec fn installer_program_of(windows: bool) -> Seq<char> {
    if windows {
        "powershell.exe"@
    } else {
        "sh"@
    }
}

/// The arguments that fetch the installer script and run it.
pub open spec fn installer_args_of(base_url: Seq<char>, windows: bool) -> Seq<Seq<char>> {
    if windows {
        seq![
            "-NoLogo"@,
            "-NoProfile"@,
            "-ExecutionPolicy"@,
            "Bypass"@,
            "-Command"@,
            "$ErrorActionPreference='Stop'; irm '"@ + base_url + "/install.ps1' | iex"@,
        ]
    } else {
        seq![
            "-c"@,
            "script=$(curl -LsSf '"@ + base_url + "/install.sh') || exit; printf '%s' \"$script\" | sh"@,
        ]
    }
}

/// How uv is installed.
pub struct UvInstallPlan {
    /// The version asked for, if one was.
    pub version: Option<String>,
    /// The folder uv goes to.
    pub directory: String,
    pub program: String,
    pub args: Vec<String>,
    /// The environment of the installer: `UV_INSTALL_DIR` and `UV_NO_MODIFY_PATH`.
    pub env: Vec<(String, String)>,
}

/// The plan of an install: the version is checked first; the folder (the
/// default when none is given or it is blank) must be absolute.
pub open spec fn install_plan_ok(
    p: UvInstallPlan,
    version: Option<Seq<char>>,
    install_directory: Option<Seq<char>>,
    default_directory: Seq<char>,
    windows: bool,
) -> bool {
    let dir = match crate::package::nonblank(install_directory) {
        Some(d) => d,
        None => default_directory,
    };
    &&& validated_version_of(version) == Ok::<Option<Seq<char>>, Seq<char>>(opt_string_view(p.version))
    &&& p.directory@ == dir
    &&& is_absolute(dir, windows)
    &&& p.program@ == installer_program_of(windows)
    &&& string_views(p.args@) == installer_args_of(base_url_of(opt_string_view(p.version)), windows)
    &&& p.env@.map_values(|e: (String, String)| (e.0@, e.1@)) == seq![
        ("UV_INSTALL_DIR"@, dir),
        ("UV_NO_MODIFY_PATH"@, "1"@),
    ]
}

pub fn install_plan(
    version: Option<String>,
    install_directory: Option<String>,
    default_directory: String,
    windows: bool,
) -> (r: Result<UvInstallPlan, String>)
    ensures
        match r {
            Ok(p) => install_plan_ok(
                p,
                opt_string_view(version),
                opt_string_view(install_directory),
                default_directory@,
                windows,
            ),
            Err(e) => match validated_version_of(opt_string_view(version)) {
                Err(m) => e@ == m,
                Ok(_) => e@ == "安装目录必须是绝对路径"@ && !is_absolute(
                    match crate::package::nonblank(opt_string_view(install_directory)) {
                        Some(d) => d,
                        None => default_directory@,
                    },
                    windows,
                ),
            },
        },
{
    let version = match validate_version(version) {
        Ok(v) => v,
        Err(e) => return Err(e),
    };
    let directory = match &install_directory {
        Some(d) => if trim_exec(&chars_of(d.as_str())).len() > 0 {
            d.clone()
        } else {
            default_directory
        },
        None => default_directory,
    };
    if !is_absolute_exec(&chars_of(directory.as_str()), windows) {
        return Err("安装目录必须是绝对路径".to_owned());
    }
    let base = match &version {
        Some(v) => concat(&chars_of("https://astral.sh/uv/"), &chars_of(v.as_str())),
        None => chars_of("https://astral.sh/uv"),
    };
    let mut args: Vec<String> = Vec::new();
    let program = if windows {
        push_lit(&mut args, "-NoLogo");
        push_lit(&mut args, "-NoProfile");
        push_lit(&mut args, "-ExecutionPolicy");
        push_lit(&mut args, "Bypass");
        push_lit(&mut args, "-Command");
        let script = concat(&concat(&chars_of("$ErrorActionPreference='Stop'; irm '"), &base), &chars_of("/install.ps1' | iex"));
        let ghost before = string_views(args@);
        args.push(to_string(&script));
        assert(string_views(args@) =~= before.push(script@));
        "powershell.exe".to_owned()
    } else {
        push_lit(&mut args, "-c");
        let script = concat(
            &concat(&chars_of("script=$(curl -LsSf '"), &base),
            &chars_of("/install.sh') || exit; printf '%s' \"$script\" | sh"),
        );
        let ghost before = string_views(args@);
        args.push(to_string(&script));
        assert(string_views(args@) =~= before.push(script@));
        "sh".to_owned()
    };
    let mut env: Vec<(String, String)> = Vec::new();
    env.push(("UV_INSTALL_DIR".to_owned(), directory.clone()));
    env.push(("UV_NO_MODIFY_PATH".to_owned(), "1".to_owned()));
    assert(env@.map_values(|e: (String, String)| (e.0@, e.1@)) =~= seq![
        ("UV_INSTALL_DIR"@, directory@),
        ("UV_NO_MODIFY_PATH"@, "1"@),
    ]);
    assert(string_views(args@) =~= installer_args_of(base_url_of(opt_string_view(version)), windows));
    Ok(UvInstallPlan { version, directory, program, args, env })
}

/// A failed installer run is reported with its own output.
pub fn install_ran(output: &ProcessOutput) -> (r: Result<(), String>)
    ensures
        r is Ok == output.ok,
        r matches Err(m) ==> m@ == failure_of(output.stdout@, output.stderr@, "uv 安装失败，请检查网络连接或手动安装 uv"@),
{
    if output.ok {
        Ok(())
    } else {
        Err(failure(output, "uv 安装失败，请检查网络连接或手动安装 uv"))
    }
}

/// Where the installer puts uv.
pub open spec fn installed_uv_of(directory: Seq<char>, windows: bool) -> Seq<char> {
    join_path(directory, uv_exe(windows), windows)
}

pub fn installed_uv(directory: &str, windows: bool) -> (r: String)
    ensures
        r@ == installed_uv_of(directory@, windows),
{
    let exe = if windows {
        chars_of("uv.exe")
    } else {
        chars_of("uv")
    };
    to_string(&join_chars(&chars_of(directory), &exe, windows))
}

/// The words and the word being read of a text split at white space.
pub open spec fn scan_words(s: Seq<char>) -> (Seq<Seq<char>>, Seq<char>)
    decreases s.len(),
{
    if s.len() == 0 {
        (seq![], seq![])
    } else {
        let (done, cur) = scan_words(s.drop_last());
        if is_space(s.last()) {
            (if cur.len() > 0 {
                done.push(cur)
            } else {
                done
            }, seq![])
        } else {
            (done, cur.push(s.last()))
        }
    }
}

/// `str::split_whitespace`.
pub open spec fn words(s: Seq<char>) -> Seq<Seq<char>> {
    let (done, cur) = scan_words(s);
    if cur.len() > 0 {
        done.push(cur)
    } else {
        done
    }
}

fn words_exec(v: &Vec<char>) -> (r: Vec<Vec<char>>)
    ensures
        views(r@) == words(v@),
{
    let mut done: Vec<Vec<char>> = Vec::new();
    let mut cur: Vec<char> = Vec::new();
    let mut i: usize = 0;
    while i < v.len()
        invariant
            i <= v.len(),
            (views(done@), cur@) == scan_words(v@.take(i as int)),
        decreases v.len() - i,
    {
        assert(v@.take(i + 1).drop_last() =~= v@.take(i as int));
        assert(v@.take(i + 1).last() == v@[i as int]);
        if is_whitespace(v[i]) {
            if cur.len() > 0 {
                let ghost before = views(done@);
                done.push(cur);
                assert(views(done@) =~= before.push(cur@));
            }
            cur = Vec::new();
        } else {
            cur.push(v[i]);
        }
        i = i + 1;
    }
    assert(v@.take(v.len() as int) =~= v@);
    if cur.len() > 0 {
        let ghost before = views(done@);
        done.push(cur);
        assert(views(done@) =~= before.push(cur@));
    }
    done
}

/// The check of a fresh install: `uv --version` ran, and printed the
/// version asked for as its second word.
pub open spec fn install_check_of(ok: bool, stdout: Seq<char>, stderr: Seq<char>, expected: Option<Seq<char>>) -> Result<
    (),
    Seq<char>,
> {
    if !ok {
        Err(failure_of(stdout, stderr, "安装后验证 uv 失败"@))
    } else {
        match expected {
            Some(e) => if words(stdout).len() > 1 && words(stdout)[1] == e {
                Ok(())
            } else {
                Err("安装版本不匹配：期望 "@ + e + "，实际 "@ + stdout)
            },
            None => Ok(()),
        }
    }
}

pub fn install_check(check: &ProcessOutput, expected: &Option<String>) -> (r: Result<(), String>)
    ensures
        match r {
            Ok(_) => install_check_of(check.ok, check.stdout@, check.stderr@, opt_string_view(*expected)) is Ok,
            Err(m) => install_check_of(check.ok, check.stdout@, check.stderr@, opt_string_view(*expected))
                == Err::<(), Seq<char>>(m@),
        },
{
    if !check.ok {
        return Err(failure(check, "安装后验证 uv 失败"));
    }
    match expected {
        Some(e) => {
            let ws = words_exec(&chars_of(check.stdout.as_str()));
            let ec = chars_of(e.as_str());
            if ws.len() > 1 && eq(&ws[1], &ec) {
                assert(views(ws@)[1] == ws@[1]@);
                Ok(())
            } else {
                proof {
                    if ws.len() > 1 {
                        assert(views(ws@)[1] == ws@[1]@);
                    }
                }
                let m = concat(
                    &concat(&concat(&chars_of("安装版本不匹配：期望 "), &ec), &chars_of("，实际 ")),
                    &chars_of(check.stdout.as_str()),
                );
                Err(to_string(&m))
            }
        },
        None => Ok(()),
    }
}

/// The result of an install: `uv 版本 <v> 安装完成：<path>` (or `uv 安装完成：<path>`)
/// with the installer's output lines that are not blank.
pub fn uv_installed_result(
    version: &Option<String>,
    installed: &str,
    command: String,
    stdout: String,
    stderr: String,
) -> (r: OperationResult)
    ensures
        r.ok,
        r.message@ == "uv "@ + (match opt_string_view(*version) {
            Some(v) => "版本 "@ + v + " 安装"@,
            None => "安装"@,
        }) + "完成："@ + installed@,
        r.command@ == command@,
        r.output@ == crate::text::join(seq![stdout@, stderr@].filter(crate::text::is_nonblank()), "\n"@),
{
    let what = match version {
        Some(v) => concat(&concat(&chars_of("版本 "), &chars_of(v.as_str())), &chars_of(" 安装")),
        None => chars_of("安装"),
    };
    let message = concat(&concat(&concat(&chars_of("uv "), &what), &chars_of("完成：")), &chars_of(installed));
    let output = crate::conda::join_filled(crate::conda::two(stdout, stderr), "\n", true);
    OperationResult { ok: true, message: to_string(&message), command, output }
}

/// `<root>/<a>/<b>` lowered, as the folders where this program puts uv are
/// compared.
pub open spec fn lowered_folder(root: Seq<char>, a: Seq<char>, b: Seq<char>, windows: bool) -> Seq<char> {
    lower(join_path(join_path(lower(root), a, windows), b, windows))
}

/// A uv that this program manages: its folder is, ASCII case aside,
/// `~/.local/bin`, `~/.cargo/bin`, `%LOCALAPPDATA%\uv` or `%LOCALAPPDATA%\bin`.
pub open spec fn managed_uv_path_of(
    path: Seq<char>,
    home: Option<Seq<char>>,
    local_app_data: Option<Seq<char>>,
    windows: bool,
) -> bool {
    match parent_text(path, windows) {
        None => false,
        Some(parent) => {
            let p = lower(parent);
            (match home {
                Some(h) => lowered_folder(h, ".local"@, "bin"@, windows) == p || lowered_folder(h, ".cargo"@, "bin"@, windows)
                    == p,
                None => false,
            }) || (match local_app_data {
                Some(l) => lower(join_path(lower(l), "uv"@, windows)) == p || lower(join_path(lower(l), "bin"@, windows))
                    == p,
                None => false,
            })
        },
    }
}

fn lowered_folder_exec(root: &Vec<char>, a: &str, b: &str, windows: bool) -> (r: Vec<char>)
    ensures
        r@ == lowered_folder(root@, a@, b@, windows),
{
    lower_exec(&join_chars(&join_chars(&lower_exec(root), &chars_of(a), windows), &chars_of(b), windows))
}

pub fn managed_uv_path(path: &str, home: &Option<String>, local_app_data: &Option<String>, windows: bool) -> (r: bool)
    ensures
        r == managed_uv_path_of(path@, opt_string_view(*home), opt_string_view(*local_app_data), windows),
{
    let parent = match parent_text_exec(&chars_of(path), windows) {
        None => return false,
        Some(p) => lower_exec(&p),
    };
    let by_home = match home {
        Some(h) => {
            let hc = chars_of(h.as_str());
            eq(&lowered_folder_exec(&hc, ".local", "bin", windows), &parent) || eq(
                &lowered_folder_exec(&hc, ".cargo", "bin", windows),
                &parent,
            )
        },
        None => false,
    };
    let by_app_data = match local_app_data {
        Some(l) => {
            let lc = lower_exec(&chars_of(l.as_str()));
            eq(&lower_exec(&join_chars(&lc, &chars_of("uv"), windows)), &parent) || eq(
                &lower_exec(&join_chars(&lc, &chars_of("bin"), windows)),
                &parent,
            )
        },
        None => false,
    };
    by_home || by_app_data
}

/// A uv may be removed when this program manages its folder or it is the
/// saved uv.
pub fn uv_uninstall_refusal(installed: &str, saved: &Option<String>, managed: bool) -> (r: Option<String>)
    ensures
        r is None == (managed || opt_string_view(*saved) == Some(installed@)),
        r matches Some(m) ==> m@ == "检测到的 uv 不在本程序管理的用户目录中，请使用原安装方式卸载"@,
{
    let is_saved = match saved {
        Some(s) => eq(&chars_of(s.as_str()), &chars_of(installed)),
        None => false,
    };
    if managed || is_saved {
        None
    } else {
        Some("检测到的 uv 不在本程序管理的用户目录中，请使用原安装方式卸载".to_owned())
    }
}

/// The `uvx` files that go with an uninstalled uv: `uvx.exe` and `uvx` in
/// its folder.
pub open spec fn uv_companions_of(installed: Seq<char>, windows: bool) -> Seq<Seq<char>> {
    match parent_text(installed, windows) {
        Some(p) => seq![join_path(p, "uvx.exe"@, windows), join_path(p, "uvx"@, windows)],
        None => seq![],
    }
}

pub fn uv_companions(installed: &str, windows: bool) -> (r: Vec<String>)
    ensures
        string_views(r@) == uv_companions_of(installed@, windows),
{
    let mut out: Vec<String> = Vec::new();
    match parent_text_exec(&chars_of(installed), windows) {
        Some(p) => {
            let a = join_chars(&p, &chars_of("uvx.exe"), windows);
            let b = join_chars(&p, &chars_of("uvx"), windows);
            out.push(to_string(&a));
            out.push(to_string(&b));
            assert(string_views(out@) =~= seq![a@, b@]);
        },
        None => {
            assert(string_views(out@) =~= Seq::<Seq<char>>::empty());
        },
    }
    out
}

/// The result of an uninstalled uv.
pub fn uv_removed_result(installed: String) -> (r: OperationResult)
    ensures
        r.ok && r.message@ == "uv 已卸载"@ && r.command@ == "remove "@ + installed@ && r.output@ == installed@,
{
    let command = to_string(&concat(&chars_of("remove "), &chars_of(installed.as_str())));
    OperationResult { ok: true, message: "uv 已卸载".to_owned(), command, output: installed }
}

/// Where uv is installed by default: the folder of the uv already found,
/// else `<home>/.local/bin` (an unset home is the empty path).
pub open spec fn default_directory_of(existing: Option<Seq<char>>, home: Option<Seq<char>>, windows: bool) -> Seq<char> {
    match existing {
        Some(e) if parent_text(e, windows) is Some => parent_text(e, windows)->Some_0,
        _ => join_path(
            join_path(
                match home {
                    Some(h) => h,
                    None => seq![],
                },
                ".local"@,
                windows,
            ),
            "bin"@,
            windows,
        ),
    }
}

pub fn default_directory(existing: Option<String>, home: Option<String>, windows: bool) -> (r: String)
    ensures
        r@ == default_directory_of(opt_string_view(existing), opt_string_view(home), windows),
{
    match &existing {
        Some(e) => match parent_text_exec(&chars_of(e.as_str()), windows) {
            Some(p) => return to_string(&p),
            None => {},
        },
        None => {},
    }
    let base = match &home {
        Some(h) => chars_of(h.as_str()),
        None => Vec::new(),
    };
    to_string(&join_chars(&join_chars(&base, &chars_of(".local"), windows), &chars_of("bin"), windows))
}

} // verus!
