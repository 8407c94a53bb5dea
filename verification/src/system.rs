//! Pythons installed on the machine: where they are looked for, how the
//! answers of the tools are read, and what the overview shows.
use vstd::prelude::*;
use crate::conda::{home_of, push_lit, string_views};
use crate::domain::{opt_string_view, CondaEnvironment, OperationResult, Overview, RuntimeInfo};
use crate::path::{join_chars, join_path};
use crate::process::ProcessOutput;
use crate::sort::{code_points, code_points_exec, sort_values, sorted_values, values_of};
use crate::text::{
    chars_of, concat, contains, contains_char, contains_exec, decimal, decimal_exec, eq,
    eq_ignore_case, eq_ignore_case_exec, find_char, find_char_from, is_ascii_alpha, is_ascii_digit,
    is_nonempty, keep_filled, lines, lines_exec, lower, lower_exec, matches_at, replace_all,
    replace_all_exec, slice, starts_with, starts_with_exec, to_string, trim, trim_exec, views,
};

verus! {

/// The index of the first occurrence of `p` in `s`.
pub open spec fn find_text(s: Seq<char>, p: Seq<char>) -> Option<nat>
    decreases s.len(),
{
    if starts_with(s, p) {
        Some(0)
    } else if s.len() == 0 {
        None
    } else {
        match find_text(s.drop_first(), p) {
            Some(i) => Some(i + 1),
            None => None,
        }
    }
}

proof fn lemma_find_text_step(s: Seq<char>, p: Seq<char>, i: int)
    requires
        0 <= i < s.len(),
        !starts_with(s.skip(i), p),
    ensures
        find_text(s.skip(i), p) == match find_text(s.skip(i + 1), p) {
            Some(k) => Some((k + 1) as nat),
            None => None::<nat>,
        },
{
    assert(s.skip(i).drop_first() =~= s.skip(i + 1));
}

pub fn find_text_exec(v: &Vec<char>, p: &Vec<char>) -> (r: Option<usize>)
    ensures
        match r {
            Some(i) => find_text(v@, p@) == Some(i as nat),
            None => find_text(v@, p@) is None,
        },
{
    let mut i: usize = 0;
    assert(v@.skip(0) =~= v@);
    while i < v.len()
        invariant
            i <= v.len(),
            find_text(v@, p@) == match find_text(v@.skip(i as int), p@) {
                Some(k) => Some((k + i) as nat),
                None => None::<nat>,
            },
        decreases v.len() - i,
    {
        if matches_at(v, p, i) {
            assert(v@.skip(i as int).subrange(0, p@.len() as int) =~= v@.subrange(i as int, i + p.len()));
            return Some(i);
        }
        assert(p@.len() <= v@.skip(i as int).len() ==> v@.skip(i as int).subrange(0, p@.len() as int)
            =~= v@.subrange(i as int, i + p.len()));
        proof {
            lemma_find_text_step(v@, p@, i as int);
        }
        i = i + 1;
    }
    assert(v@.skip(i as int).len() == 0);
    if p.len() == 0 {
        assert(v@.skip(i as int).subrange(0, 0) =~= p@);
        Some(i)
    } else {
        None
    }
}

/// Strips every `c` from the start of `s`.
pub open spec fn strip_start_char(s: Seq<char>, c: char) -> Seq<char>
    decreases s.len(),
{
    if s.len() > 0 && s[0] == c {
        strip_start_char(s.drop_first(), c)
    } else {
        s
    }
}

/// Strips every `c` from the end of `s`.
pub open spec fn strip_end_char(s: Seq<char>, c: char) -> Seq<char>
    decreases s.len(),
{
    if s.len() > 0 && s.last() == c {
        strip_end_char(s.drop_last(), c)
    } else {
        s
    }
}

/// `str::trim_matches('"')`.
pub open spec fn strip_quotes(s: Seq<char>) -> Seq<char> {
    strip_end_char(strip_start_char(s, '"'), '"')
}

fn strip_quotes_exec(v: &Vec<char>) -> (r: Vec<char>)
    ensures
        r@ == strip_quotes(v@),
{
    let mut i: usize = 0;
    assert(v@.skip(0) =~= v@);
    while i < v.len() && v[i] == '"'
        invariant
            i <= v.len(),
            strip_start_char(v@, '"') == strip_start_char(v@.skip(i as int), '"'),
        decreases v.len() - i,
    {
        assert(v@.skip(i as int).drop_first() =~= v@.skip(i + 1));
        i = i + 1;
    }
    let mut j: usize = v.len();
    assert(v@.skip(i as int) =~= v@.subrange(i as int, j as int));
    while j > i && v[j - 1] == '"'
        invariant
            i <= j <= v.len(),
            strip_quotes(v@) == strip_end_char(v@.subrange(i as int, j as int), '"'),
            strip_start_char(v@, '"') == strip_start_char(v@.skip(i as int), '"'),
        decreases j - i,
    {
        assert(v@.subrange(i as int, j as int).drop_last() =~= v@.subrange(i as int, j - 1));
        j = j - 1;
    }
    slice(v, i, j)
}

/// A drive at `i`: a letter, then `:\`.
pub open spec fn is_drive_at(line: Seq<char>, i: int) -> bool {
    0 <= i && i + 3 <= line.len() && is_ascii_alpha(line[i]) && line[i + 1] == ':' && line[i + 2] == '\\'
}

/// The first drive at or after `i`.
pub open spec fn first_drive_from(line: Seq<char>, i: nat) -> Option<nat>
    decreases line.len() - i,
{
    if i >= line.len() {
        None
    } else if is_drive_at(line, i as int) {
        Some(i)
    } else {
        first_drive_from(line, i + 1)
    }
}

fn first_drive(line: &Vec<char>) -> (r: Option<usize>)
    ensures
        match r {
            Some(d) => first_drive_from(line@, 0) == Some(d as nat),
            None => first_drive_from(line@, 0) is None,
        },
{
    let mut i: usize = 0;
    while i < line.len()
        invariant
            i <= line.len(),
            first_drive_from(line@, 0) == first_drive_from(line@, i as nat),
        decreases line.len() - i,
    {
        let c = line[i];
        if (('a' <= c && c <= 'z') || ('A' <= c && c <= 'Z')) && line.len() - i >= 3 && line[i + 1]
            == ':' && line[i + 2] == '\\' {
            return Some(i);
        }
        i = i + 1;
    }
    None
}

/// The end of the interpreter's name in a line of `py -0p`: just after the
/// first `.exe` (in any case).
pub open spec fn exe_end(line: Seq<char>) -> Option<nat> {
    match find_text(lower(line), ".exe"@) {
        Some(e) => Some(e + 4),
        None => None,
    }
}

/// Where the path of a line of `py -0p` starts: after the `*` that marks
/// the default, else at the first drive, else at the start.
pub open spec fn path_start(line: Seq<char>) -> nat {
    if line.contains('*') {
        find_char(line, '*') + 1
    } else {
        match first_drive_from(line, 0) {
            Some(d) => d,
            None => 0,
        }
    }
}

/// The slicing of a line does not panic: the path does not start after its end.
pub open spec fn launcher_line_ok(raw: Seq<char>) -> bool {
    let line = trim(raw);
    match exe_end(line) {
        Some(end) => path_start(line) <= end,
        None => true,
    }
}

/// The interpreter a line of `py -0p` names, if it names one.
pub open spec fn launcher_line_path(raw: Seq<char>) -> Option<Seq<char>> {
    let line = trim(raw);
    match exe_end(line) {
        Some(end) => Some(strip_quotes(trim(line.subrange(path_start(line) as int, end as int)))),
        None => None,
    }
}

/// The interpreters named by the lines, in order.
pub open spec fn launcher_paths_in(ls: Seq<Seq<char>>) -> Seq<Seq<char>>
    decreases ls.len(),
{
    if ls.len() == 0 {
        seq![]
    } else {
        let rest = launcher_paths_in(ls.drop_last());
        match launcher_line_path(ls.last()) {
            Some(p) => rest.push(p),
            None => rest,
        }
    }
}

fn launcher_line_exec(raw: &Vec<char>) -> (r: Option<Vec<char>>)
    requires
        launcher_line_ok(raw@),
    ensures
        crate::yaml::vec_opt_view(r) == launcher_line_path(raw@),
{
    let line = trim_exec(raw);
    let low = lower_exec(&line);
    let e = match find_text_exec(&low, &chars_of(".exe")) {
        Some(e) => e,
        None => return None,
    };
    proof {
        reveal_strlit(".exe");
        lemma_find_text_fits(low@, ".exe"@);
    }
    let end = e + 4;
    let start = if contains_char(&line, '*') {
        find_char_from(&line, '*', 0) + 1
    } else {
        match first_drive(&line) {
            Some(d) => d,
            None => 0,
        }
    };
    assert(line@.subrange(0, line@.len() as int) =~= line@);
    let value = trim_exec(&slice(&line, start, end));
    Some(strip_quotes_exec(&value))
}

/// A found `p` fits in `s`.
pub proof fn lemma_find_text_fits(s: Seq<char>, p: Seq<char>)
    ensures
        find_text(s, p) matches Some(i) ==> i + p.len() <= s.len(),
    decreases s.len(),
{
    if !starts_with(s, p) && s.len() > 0 {
        lemma_find_text_fits(s.drop_first(), p);
    }
}

/// The interpreters that `py -0p` lists, one per line that names one.
pub open spec fn launcher_paths_of(output: Seq<char>) -> Seq<Seq<char>> {
    launcher_paths_in(lines(output))
}

/// No line of the output makes the slicing panic.
pub open spec fn launcher_output_ok(output: Seq<char>) -> bool {
    forall|i: int| 0 <= i < lines(output).len() ==> launcher_line_ok(#[trigger] lines(output)[i])
}

/// Whether `parse_python_launcher_paths` can read this output: no line names
/// an interpreter whose path would start after its end.
pub fn launcher_output_is_safe(output: &str) -> (r: bool)
    ensures
        r == launcher_output_ok(output@),
{
    let ls = lines_exec(&chars_of(output));
    let ghost lv = ls@.map_values(|l: Vec<char>| l@);
    let mut i: usize = 0;
    while i < ls.len()
        invariant
            i <= ls.len(),
            lv == ls@.map_values(|l: Vec<char>| l@),
            lv == lines(output@),
            forall|k: int| 0 <= k < i ==> launcher_line_ok(#[trigger] lv[k]),
        decreases ls.len() - i,
    {
        assert(lv[i as int] == ls@[i as int]@);
        if !launcher_line_ok_exec(&ls[i]) {
            return false;
        }
        i = i + 1;
    }
    true
}

fn launcher_line_ok_exec(raw: &Vec<char>) -> (r: bool)
    ensures
        r == launcher_line_ok(raw@),
{
    let line = trim_exec(raw);
    let low = lower_exec(&line);
    let e = match find_text_exec(&low, &chars_of(".exe")) {
        Some(e) => e,
        None => return true,
    };
    proof {
        reveal_strlit(".exe");
        lemma_find_text_fits(low@, ".exe"@);
    }
    let start = if contains_char(&line, '*') {
        find_char_from(&line, '*', 0) + 1
    } else {
        match first_drive(&line) {
            Some(d) => d,
            None => 0,
        }
    };
    assert(line@.subrange(0, line@.len() as int) =~= line@);
    start <= e + 4
}

pub fn parse_python_launcher_paths(output: &str) -> (r: Vec<String>)
    requires
        launcher_output_ok(output@),
    ensures
        crate::conda::string_views(r@) == launcher_paths_of(output@),
{
    let ls = lines_exec(&chars_of(output));
    let ghost lv = ls@.map_values(|l: Vec<char>| l@);
    let mut out: Vec<String> = Vec::new();
    let mut i: usize = 0;
    assert(lv.take(0) =~= Seq::<Seq<char>>::empty());
    assert(crate::conda::string_views(out@) =~= Seq::<Seq<char>>::empty());
    while i < ls.len()
        invariant
            i <= ls.len(),
            lv == ls@.map_values(|l: Vec<char>| l@),
            lv == lines(output@),
            launcher_output_ok(output@),
            crate::conda::string_views(out@) == launcher_paths_in(lv.take(i as int)),
        decreases ls.len() - i,
    {
        assert(lv.take(i + 1).drop_last() =~= lv.take(i as int));
        assert(lv[i as int] == ls@[i as int]@);
        assert(launcher_line_ok(lv[i as int]));
        let ghost before = crate::conda::string_views(out@);
        match launcher_line_exec(&ls[i]) {
            Some(p) => {
                out.push(to_string(&p));
                assert(crate::conda::string_views(out@) =~= before.push(p@));
            },
            None => {},
        }
        i = i + 1;
    }
    assert(lv.take(ls.len() as int) =~= lv);
    out
}

/// The interpreter in a directory that holds one: `python.exe` on Windows,
/// `bin/python3` elsewhere.
pub open spec fn python_executable_of(directory: Seq<char>, windows: bool) -> Seq<char> {
    if windows {
        join_path(directory, "python.exe"@, true)
    } else {
        join_path(join_path(directory, "bin"@, false), "python3"@, false)
    }
}

pub fn python_executable(directory: &str, windows: bool) -> (r: String)
    ensures
        r@ == python_executable_of(directory@, windows),
{
    let d = chars_of(directory);
    if windows {
        to_string(&join_chars(&d, &chars_of("python.exe"), true))
    } else {
        to_string(&join_chars(&join_chars(&d, &chars_of("bin"), false), &chars_of("python3"), false))
    }
}

/// The usual install folders of Python on Windows.
pub open spec fn fixed_windows_roots() -> Seq<Seq<char>> {
    seq![
        "C:\\Python39"@,
        "C:\\Python310"@,
        "C:\\Python311"@,
        "C:\\Python312"@,
        "C:\\Python313"@,
        "C:\\Python314"@,
        "D:\\Python39"@,
        "D:\\Python310"@,
        "D:\\Python311"@,
        "D:\\Python312"@,
        "D:\\Python313"@,
        "D:\\Python314"@,
        "C:\\Program Files\\Python"@,
        "C:\\Program Files (x86)\\Python"@,
        "D:\\Program Files\\Python"@,
        "D:\\Program Files (x86)\\Python"@,
    ]
}

fn push_fixed_windows_roots(v: &mut Vec<String>)
    ensures
        string_views(final(v)@) == string_views(old(v)@) + fixed_windows_roots(),
{
    let ghost b = string_views(v@);
    push_lit(v, "C:\\Python39");
    push_lit(v, "C:\\Python310");
    push_lit(v, "C:\\Python311");
    push_lit(v, "C:\\Python312");
    push_lit(v, "C:\\Python313");
    push_lit(v, "C:\\Python314");
    push_lit(v, "D:\\Python39");
    push_lit(v, "D:\\Python310");
    push_lit(v, "D:\\Python311");
    push_lit(v, "D:\\Python312");
    push_lit(v, "D:\\Python313");
    push_lit(v, "D:\\Python314");
    push_lit(v, "C:\\Program Files\\Python");
    push_lit(v, "C:\\Program Files (x86)\\Python");
    push_lit(v, "D:\\Program Files\\Python");
    push_lit(v, "D:\\Program Files (x86)\\Python");
    assert(string_views(v@) =~= b + fixed_windows_roots());
}

/// The trimmed lines of `where.exe`'s answer that are not empty.
pub open spec fn where_paths_of(output: Seq<char>) -> Seq<Seq<char>> {
    lines(output).map_values(|l: Seq<char>| trim(l)).filter(is_nonempty())
}

fn append_views(out: &mut Vec<String>, parts: &Vec<Vec<char>>)
    ensures
        string_views(final(out)@) == string_views(old(out)@) + views(parts@),
{
    let ghost b = string_views(out@);
    let mut i: usize = 0;
    while i < parts.len()
        invariant
            i <= parts.len(),
            string_views(out@) == b + views(parts@).take(i as int),
        decreases parts.len() - i,
    {
        let ghost before = string_views(out@);
        out.push(to_string(&parts[i]));
        assert(string_views(out@) =~= before.push(parts@[i as int]@));
        i = i + 1;
        assert(views(parts@).take(i as int) =~= views(parts@).take(i - 1).push(parts@[i - 1]@));
    }
    assert(views(parts@).take(parts.len() as int) =~= views(parts@));
}

fn where_paths(output: &str) -> (r: Vec<Vec<char>>)
    ensures
        views(r@) == where_paths_of(output@),
{
    let ls = lines_exec(&chars_of(output));
    let ghost lv = ls@.map_values(|l: Vec<char>| l@);
    let mut trimmed: Vec<Vec<char>> = Vec::new();
    let mut i: usize = 0;
    while i < ls.len()
        invariant
            i <= ls.len(),
            lv == ls@.map_values(|l: Vec<char>| l@),
            views(trimmed@) == lv.take(i as int).map_values(|l: Seq<char>| trim(l)),
        decreases ls.len() - i,
    {
        let ghost before = views(trimmed@);
        let t = trim_exec(&ls[i]);
        assert(lv[i as int] == ls@[i as int]@);
        trimmed.push(t);
        assert(views(trimmed@) =~= before.push(trim(lv[i as int])));
        i = i + 1;
        assert(lv.take(i as int) =~= lv.take(i - 1).push(lv[i - 1]));
        assert(views(trimmed@) =~= lv.take(i as int).map_values(|l: Seq<char>| trim(l)));
    }
    assert(lv.take(ls.len() as int) =~= lv);
    keep_filled(trimmed, false)
}

/// The Python folder under `<home>/AppData/Local/Programs`.
pub open spec fn user_python_root(home: Seq<char>) -> Seq<char> {
    join_path(
        join_path(join_path(join_path(home, "AppData"@, true), "Local"@, true), "Programs"@, true),
        "Python"@,
        true,
    )
}

/// The places searched for Pythons on Windows, in order: the user's
/// Programs folder, the usual install folders, what `where.exe python.exe`
/// found, and what `py -0p` lists.
pub open spec fn windows_candidates_of(home: Option<Seq<char>>, where_output: Seq<char>, launcher_output: Seq<char>) -> Seq<
    Seq<char>,
> {
    (match home {
        Some(h) => seq![user_python_root(h)],
        None => seq![],
    }) + fixed_windows_roots() + where_paths_of(where_output) + launcher_paths_of(launcher_output)
}

pub fn windows_candidates(home: Option<String>, where_output: &str, launcher_output: &str) -> (r: Vec<String>)
    requires
        launcher_output_ok(launcher_output@),
    ensures
        string_views(r@) == windows_candidates_of(opt_string_view(home), where_output@, launcher_output@),
{
    let mut out: Vec<String> = Vec::new();
    match &home {
        Some(h) => {
            let a = join_chars(&chars_of(h.as_str()), &chars_of("AppData"), true);
            let b = join_chars(&a, &chars_of("Local"), true);
            let c = join_chars(&b, &chars_of("Programs"), true);
            let d = join_chars(&c, &chars_of("Python"), true);
            out.push(to_string(&d));
        },
        None => {},
    }
    let ghost first = string_views(out@);
    push_fixed_windows_roots(&mut out);
    append_views(&mut out, &where_paths(where_output));
    let launched = parse_python_launcher_paths(launcher_output);
    let ghost mid = string_views(out@);
    let mut i: usize = 0;
    while i < launched.len()
        invariant
            i <= launched.len(),
            string_views(out@) == mid + string_views(launched@).take(i as int),
        decreases launched.len() - i,
    {
        let ghost before = string_views(out@);
        out.push(launched[i].clone());
        assert(string_views(out@) =~= before.push(launched@[i as int]@));
        i = i + 1;
        assert(string_views(launched@).take(i as int) =~= string_views(launched@).take(i - 1).push(
            launched@[i - 1]@,
        ));
    }
    assert(string_views(launched@).take(launched.len() as int) =~= string_views(launched@));
    assert(string_views(out@) =~= windows_candidates_of(opt_string_view(home), where_output@, launcher_output@));
    out
}

/// The places searched for Pythons elsewhere, in order: the system's
/// `python3`, pyenv's and asdf's versions, and the `python3` on the path.
pub open spec fn unix_candidates_of(home: Option<Seq<char>>, python3: Option<Seq<char>>) -> Seq<Seq<char>> {
    seq!["/usr/bin/python3"@, "/usr/local/bin/python3"@] + (match home {
        Some(h) => seq![
            join_path(join_path(h, ".pyenv"@, false), "versions"@, false),
            join_path(join_path(join_path(h, ".asdf"@, false), "installs"@, false), "python"@, false),
        ],
        None => seq![],
    }) + (match python3 {
        Some(p) => seq![p],
        None => seq![],
    })
}

pub fn unix_candidates(home: Option<String>, python3: Option<String>) -> (r: Vec<String>)
    ensures
        string_views(r@) == unix_candidates_of(opt_string_view(home), opt_string_view(python3)),
{
    let mut out: Vec<String> = Vec::new();
    push_lit(&mut out, "/usr/bin/python3");
    push_lit(&mut out, "/usr/local/bin/python3");
    let ghost a = string_views(out@);
    match &home {
        Some(h) => {
            let hc = chars_of(h.as_str());
            let p = join_chars(&join_chars(&hc, &chars_of(".pyenv"), false), &chars_of("versions"), false);
            let q = join_chars(
                &join_chars(&join_chars(&hc, &chars_of(".asdf"), false), &chars_of("installs"), false),
                &chars_of("python"),
                false,
            );
            out.push(to_string(&p));
            out.push(to_string(&q));
            assert(string_views(out@) =~= a + seq![p@, q@]);
        },
        None => {},
    }
    let ghost b = string_views(out@);
    match &python3 {
        Some(p) => {
            out.push(p.clone());
            assert(string_views(out@) =~= b + seq![p@]);
        },
        None => {
            assert(string_views(out@) =~= b + Seq::<Seq<char>>::empty());
        },
    }
    assert(string_views(out@) =~= unix_candidates_of(opt_string_view(home), opt_string_view(python3)));
    out
}

/// A Windows store alias that only opens the store.
pub open spec fn is_blocked_alias_of(path: Seq<char>, windows: bool) -> bool {
    windows && contains(lower(path), "\\windowsapps\\"@)
}

pub fn is_blocked_windows_alias(path: &str, windows: bool) -> (r: bool)
    ensures
        r == is_blocked_alias_of(path@, windows),
{
    windows && contains_exec(&lower_exec(&chars_of(path)), &chars_of("\\windowsapps\\"))
}

/// An earlier path with the same text, ASCII case aside.
pub open spec fn seen_before(earlier: Seq<Seq<char>>, p: Seq<char>) -> bool {
    exists|j: int| 0 <= j < earlier.len() && eq_ignore_case(#[trigger] earlier[j], p)
}

/// The executables worth asking for their version: each path once (the
/// first of those equal but for ASCII case), store aliases left out.
pub open spec fn distinct_executables_of(ps: Seq<Seq<char>>, windows: bool) -> Seq<Seq<char>>
    decreases ps.len(),
{
    if ps.len() == 0 {
        seq![]
    } else {
        let rest = distinct_executables_of(ps.drop_last(), windows);
        let p = ps.last();
        if seen_before(ps.drop_last(), p) || is_blocked_alias_of(p, windows) {
            rest
        } else {
            rest.push(p)
        }
    }
}

/// What is kept comes from the list.
proof fn lemma_distinct_from_list(ps: Seq<Seq<char>>, windows: bool)
    ensures
        forall|i: int|
            0 <= i < distinct_executables_of(ps, windows).len() ==> exists|k: int|
                0 <= k < ps.len() && ps[k] == #[trigger] distinct_executables_of(ps, windows)[i],
    decreases ps.len(),
{
    if ps.len() > 0 {
        let q = ps.drop_last();
        lemma_distinct_from_list(q, windows);
        let d = distinct_executables_of(q, windows);
        assert forall|i: int| 0 <= i < distinct_executables_of(ps, windows).len() implies exists|k: int|
            0 <= k < ps.len() && ps[k] == #[trigger] distinct_executables_of(ps, windows)[i] by {
            if i < d.len() {
                assert(distinct_executables_of(ps, windows)[i] == d[i]);
                let k = choose|k: int| 0 <= k < q.len() && q[k] == d[i];
                assert(ps[k] == q[k]);
            } else {
                assert(distinct_executables_of(ps, windows)[i] == ps.last());
                assert(ps[ps.len() - 1] == ps.last());
            }
        }
    }
}

/// Each Python is asked once: no two executables kept are the same path,
/// ASCII case aside, and no store alias is kept.
pub proof fn law_distinct_executables_are_distinct(ps: Seq<Seq<char>>, windows: bool)
    ensures
        forall|i: int, j: int|
            0 <= i < j < distinct_executables_of(ps, windows).len() ==> !eq_ignore_case(
                #[trigger] distinct_executables_of(ps, windows)[i],
                #[trigger] distinct_executables_of(ps, windows)[j],
            ),
        forall|i: int|
            0 <= i < distinct_executables_of(ps, windows).len() ==> !is_blocked_alias_of(
                #[trigger] distinct_executables_of(ps, windows)[i],
                windows,
            ),
    decreases ps.len(),
{
    if ps.len() > 0 {
        let q = ps.drop_last();
        law_distinct_executables_are_distinct(q, windows);
        lemma_distinct_from_list(q, windows);
        let d = distinct_executables_of(q, windows);
        let r = distinct_executables_of(ps, windows);
        if !(seen_before(q, ps.last()) || is_blocked_alias_of(ps.last(), windows)) {
            assert(r == d.push(ps.last()));
            assert forall|i: int, j: int| 0 <= i < j < r.len() implies !eq_ignore_case(#[trigger] r[i], #[trigger] r[j]) by {
                if j == r.len() - 1 {
                    assert(r[i] == d[i]);
                    let k = choose|k: int| 0 <= k < q.len() && q[k] == d[i];
                    if eq_ignore_case(r[i], r[j]) {
                        assert(eq_ignore_case(q[k], ps.last()));
                        assert(seen_before(q, ps.last()));
                    }
                } else {
                    assert(r[i] == d[i] && r[j] == d[j]);
                }
            }
            assert forall|i: int| 0 <= i < r.len() implies !is_blocked_alias_of(#[trigger] r[i], windows) by {
                if i < d.len() {
                    assert(r[i] == d[i]);
                }
            }
        }
    }
}

fn seen_before_exec(ps: &Vec<String>, i: usize) -> (r: bool)
    requires
        i < ps.len(),
    ensures
        r == seen_before(string_views(ps@).take(i as int), ps@[i as int]@),
{
    let p = chars_of(ps[i].as_str());
    let ghost e = string_views(ps@).take(i as int);
    let mut j: usize = 0;
    while j < i
        invariant
            j <= i < ps.len(),
            p@ == ps@[i as int]@,
            e == string_views(ps@).take(i as int),
            forall|k: int| 0 <= k < j ==> !eq_ignore_case(#[trigger] e[k], p@),
        decreases i - j,
    {
        if eq_ignore_case_exec(&chars_of(ps[j].as_str()), &p) {
            assert(eq_ignore_case(e[j as int], p@));
            return true;
        }
        j = j + 1;
    }
    false
}

pub fn distinct_executables(executables: &Vec<String>, windows: bool) -> (r: Vec<String>)
    ensures
        string_views(r@) == distinct_executables_of(string_views(executables@), windows),
{
    let ghost all = string_views(executables@);
    let mut out: Vec<String> = Vec::new();
    let mut i: usize = 0;
    assert(all.take(0) =~= Seq::<Seq<char>>::empty());
    while i < executables.len()
        invariant
            i <= executables.len(),
            all == string_views(executables@),
            string_views(out@) == distinct_executables_of(all.take(i as int), windows),
        decreases executables.len() - i,
    {
        assert(all.take(i + 1).drop_last() =~= all.take(i as int));
        let seen = seen_before_exec(executables, i);
        let blocked = is_blocked_windows_alias(executables[i].as_str(), windows);
        if !seen && !blocked {
            let ghost before = string_views(out@);
            out.push(executables[i].clone());
            assert(string_views(out@) =~= before.push(all[i as int]));
        }
        i = i + 1;
    }
    assert(all.take(executables.len() as int) =~= all);
    out
}

/// `s` without the prefix `p`, when it has it.
pub open spec fn strip_prefix_or(s: Seq<char>, p: Seq<char>) -> Seq<char> {
    if starts_with(s, p) {
        s.skip(p.len() as int)
    } else {
        s
    }
}

fn strip_prefix_or_exec(s: &Vec<char>, p: &str) -> (r: Vec<char>)
    ensures
        r@ == strip_prefix_or(s@, p@),
{
    let pc = chars_of(p);
    if starts_with_exec(s, &pc) {
        slice(s, pc.len(), s.len())
    } else {
        s.clone()
    }
}

/// The first line of `a`, else of `b`.
pub open spec fn first_line_of(a: Seq<char>, b: Seq<char>) -> Option<Seq<char>> {
    if lines(a).len() > 0 {
        Some(lines(a)[0])
    } else if lines(b).len() > 0 {
        Some(lines(b)[0])
    } else {
        None
    }
}

pub(crate) fn first_line(a: &str, b: &str) -> (r: Option<Vec<char>>)
    ensures
        crate::yaml::vec_opt_view(r) == first_line_of(a@, b@),
{
    let la = lines_exec(&chars_of(a));
    if la.len() > 0 {
        assert(la@.map_values(|l: Vec<char>| l@)[0] == la@[0]@);
        return Some(la[0].clone());
    }
    let lb = lines_exec(&chars_of(b));
    if lb.len() > 0 {
        assert(lb@.map_values(|l: Vec<char>| l@)[0] == lb@[0]@);
        return Some(lb[0].clone());
    }
    None
}

/// The version `python --version` printed: its first line (stdout first),
/// trimmed, without `Python `; nothing when it failed or printed no version.
pub open spec fn interpreter_version_of(ok: bool, stdout: Seq<char>, stderr: Seq<char>) -> Option<Seq<char>> {
    if !ok {
        None
    } else {
        match first_line_of(stdout, stderr) {
            None => None,
            Some(l) => {
                let v = trim(strip_prefix_or(trim(l), "Python "@));
                if v.len() > 0 {
                    Some(v)
                } else {
                    None
                }
            },
        }
    }
}

pub fn interpreter_version(output: &ProcessOutput) -> (r: Option<String>)
    ensures
        opt_string_view(r) == interpreter_version_of(output.ok, output.stdout@, output.stderr@),
{
    if !output.ok {
        return None;
    }
    match first_line(output.stdout.as_str(), output.stderr.as_str()) {
        None => None,
        Some(l) => {
            let v = trim_exec(&strip_prefix_or_exec(&trim_exec(&l), "Python "));
            if v.len() > 0 {
                Some(to_string(&v))
            } else {
                None
            }
        },
    }
}

/// What the overview shows for a tool's `--version`: `未检测到` when the tool
/// is missing or failed; else the first line of its stdout (or of its stderr
/// when stdout is empty), trimmed, with `Python ` taken out.
pub open spec fn command_version_of(found: bool, ok: bool, stdout: Seq<char>, stderr: Seq<char>) -> Seq<char> {
    if !found || !ok {
        "未检测到"@
    } else {
        let value = if stdout.len() == 0 {
            stderr
        } else {
            stdout
        };
        let first = if lines(value).len() > 0 {
            lines(value)[0]
        } else {
            "未检测到"@
        };
        replace_all(trim(first), "Python "@, ""@)
    }
}

pub fn command_version(output: Option<ProcessOutput>) -> (r: String)
    ensures
        r@ == match output {
            None => "未检测到"@,
            Some(o) => command_version_of(true, o.ok, o.stdout@, o.stderr@),
        },
{
    let o = match output {
        None => return "未检测到".to_owned(),
        Some(o) => o,
    };
    if !o.ok {
        return "未检测到".to_owned();
    }
    let value = if o.stdout.as_str().is_empty() {
        chars_of(o.stderr.as_str())
    } else {
        chars_of(o.stdout.as_str())
    };
    let ls = lines_exec(&value);
    let first = if ls.len() > 0 {
        assert(ls@.map_values(|l: Vec<char>| l@)[0] == ls@[0]@);
        ls[0].clone()
    } else {
        chars_of("未检测到")
    };
    to_string(&replace_all_exec(&trim_exec(&first), &chars_of("Python "), &chars_of("")))
}

/// A version as the overview shows it: `未检测到` in place of nothing.
pub open spec fn shown_version(v: Seq<char>) -> Seq<char> {
    if v.len() == 0 {
        "未检测到"@
    } else {
        v
    }
}

/// The overview: the versions found, the platform, the Conda environments
/// (none when Conda is not found) and when it was made, in seconds since
/// the Unix epoch.
pub fn overview(
    python: String,
    conda: String,
    platform: &str,
    environments: Option<Vec<CondaEnvironment>>,
    checked_at: u64,
) -> (r: Overview)
    ensures
        r.runtime.python@ == shown_version(python@),
        r.runtime.conda@ == shown_version(conda@),
        r.runtime.platform@ == platform@,
        r.environments@ == match environments {
            Some(e) => e@,
            None => Seq::<CondaEnvironment>::empty(),
        },
        r.checked_at@ == "unix:"@ + decimal(checked_at as nat),
{
    let python = if python.as_str().is_empty() {
        "未检测到".to_owned()
    } else {
        python
    };
    let conda = if conda.as_str().is_empty() {
        "未检测到".to_owned()
    } else {
        conda
    };
    let environments = match environments {
        Some(e) => e,
        None => Vec::new(),
    };
    let checked = to_string(&concat(&chars_of("unix:"), &decimal_exec(checked_at as u128)));
    Overview {
        runtime: RuntimeInfo { python, conda, platform: platform.to_owned() },
        environments,
        checked_at: checked,
    }
}

/// An entry of the version list: `<version> (<path>)`.
pub open spec fn version_entry(version: Seq<char>, path: Seq<char>) -> Seq<char> {
    version + " ("@ + path + ")"@
}

pub open spec fn entry_key() -> spec_fn(String) -> Seq<u32> {
    |s: String| code_points(s@)
}

pub open spec fn version_entries_of(found: Seq<(String, String)>) -> Seq<Seq<char>> {
    found.map_values(|f: (String, String)| version_entry(f.0@, f.1@))
}

/// The found Pythons as `<version> (<path>)`, the greatest text first.
pub fn version_listing(found: Vec<(String, String)>) -> (r: Vec<String>)
    ensures
        exists|entries: Seq<String>|
            string_views(entries) == version_entries_of(found@) && sorted_values(r@, entries, entry_key(), true),
{
    let ghost f = found@;
    let mut pairs: Vec<(Vec<u32>, String)> = Vec::new();
    let mut i: usize = 0;
    while i < found.len()
        invariant
            i <= found.len(),
            f == found@,
            string_views(values_of(pairs@)) == version_entries_of(f.take(i as int)),
            forall|k: int| 0 <= k < pairs@.len() ==> (#[trigger] pairs@[k]).0@ == entry_key()(pairs@[k].1),
        decreases found.len() - i,
    {
        let (v, p) = (&found[i].0, &found[i].1);
        let text = to_string(
            &concat(&concat(&concat(&chars_of(v.as_str()), &chars_of(" (")), &chars_of(p.as_str())), &chars_of(")")),
        );
        let key = code_points_exec(&chars_of(text.as_str()));
        let ghost before = values_of(pairs@);
        assert(text@ == version_entry(f[i as int].0@, f[i as int].1@));
        pairs.push((key, text));
        assert(values_of(pairs@) =~= before.push(text));
        assert(string_views(values_of(pairs@)) =~= string_views(before).push(text@));
        i = i + 1;
        assert(f.take(i as int) =~= f.take(i - 1).push(f[i - 1]));
        assert(string_views(values_of(pairs@)) =~= version_entries_of(f.take(i as int)));
    }
    assert(f.take(found.len() as int) =~= f);
    let ghost entries = values_of(pairs@);
    let r = sort_values(pairs, true, Ghost(entry_key()));
    assert(string_views(entries) == version_entries_of(found@));
    r
}

/// Decimal digits whose value fits in a `u32`.
pub open spec fn digits_u32(d: Seq<char>) -> Option<u32> {
    if d.len() > 0 && (forall|i: int| 0 <= i < d.len() ==> is_ascii_digit(#[trigger] d[i]))
        && crate::conda::digits_value(d) <= u32::MAX {
        Some(crate::conda::digits_value(d) as u32)
    } else {
        None
    }
}

/// `str::parse::<u32>`: an optional `+`, then decimal digits whose value fits.
pub open spec fn parse_u32_of(s: Seq<char>) -> Option<u32> {
    digits_u32(
        if s.len() > 1 && s[0] == '+' {
            s.drop_first()
        } else {
            s
        },
    )
}

pub fn parse_u32(s: &Vec<char>) -> (r: Option<u32>)
    ensures
        r == parse_u32_of(s@),
{
    let d = if s.len() > 1 && s[0] == '+' {
        slice(s, 1, s.len())
    } else {
        s.clone()
    };
    assert(s@.len() > 1 && s@[0] == '+' ==> d@ =~= s@.drop_first());
    if d.len() == 0 {
        return None;
    }
    let mut acc: u64 = 0;
    let mut i: usize = 0;
    while i < d.len()
        invariant
            i <= d.len(),
            acc <= u32::MAX,
            acc == crate::conda::digits_value(d@.subrange(0, i as int)),
            forall|k: int| 0 <= k < i ==> is_ascii_digit(#[trigger] d@[k]),
            parse_u32_of(s@) == digits_u32(d@),
        decreases d.len() - i,
    {
        assert(d@.subrange(0, i + 1).drop_last() =~= d@.subrange(0, i as int));
        let c = d[i];
        if !('0' <= c && c <= '9') {
            assert(!is_ascii_digit(d@[i as int]));
            return None;
        }
        let next = acc * 10 + (c as u32 - 48) as u64;
        if next > 0xffff_ffff {
            proof {
                crate::conda::lemma_digits_grow(d@, i + 1);
            }
            return None;
        }
        acc = next;
        i = i + 1;
    }
    assert(d@.subrange(0, d.len() as int) =~= d@);
    Some(acc as u32)
}

/// The major and minor number of a version `<major>.<minor>[...]`.
pub open spec fn major_minor_of(version: Seq<char>) -> Option<(u32, u32)> {
    let parts = crate::conda::split_on(version, '.');
    if parts.len() < 2 {
        None
    } else {
        match (parse_u32_of(parts[0]), parse_u32_of(parts[1])) {
            (Some(a), Some(b)) => Some((a, b)),
            _ => None,
        }
    }
}

pub fn parse_python_major_minor(version: &str) -> (r: Option<(u32, u32)>)
    ensures
        r == major_minor_of(version@),
{
    let parts = crate::conda::split_on_exec(&chars_of(version), '.');
    if parts.len() < 2 {
        return None;
    }
    assert(views(parts@)[0] == parts@[0]@ && views(parts@)[1] == parts@[1]@);
    match (parse_u32(&parts[0]), parse_u32(&parts[1])) {
        (Some(a), Some(b)) => Some((a, b)),
        _ => None,
    }
}

/// Which environment of this program an interpreter belongs to.
pub enum PythonOwner {
    /// The Conda environment at this index.
    Conda(usize),
    /// The virtual environment at this index.
    Venv(usize),
    /// Neither: a system or foreign install.
    Unmanaged,
}

/// The first index whose path is `p`, ASCII case aside.
fn first_same_exec(ps: &Vec<String>, p: &Vec<char>) -> (r: Option<usize>)
    ensures
        match r {
            Some(i) => i < ps.len() && eq_ignore_case(ps@[i as int]@, p@) && forall|j: int|
                0 <= j < i ==> !eq_ignore_case(#[trigger] ps@[j]@, p@),
            None => forall|j: int| 0 <= j < ps.len() ==> !eq_ignore_case(#[trigger] ps@[j]@, p@),
        },
{
    let mut i: usize = 0;
    while i < ps.len()
        invariant
            i <= ps.len(),
            forall|j: int| 0 <= j < i ==> !eq_ignore_case(#[trigger] ps@[j]@, p@),
        decreases ps.len() - i,
    {
        if eq_ignore_case_exec(&chars_of(ps[i].as_str()), p) {
            return Some(i);
        }
        i = i + 1;
    }
    None
}

/// The owner of the interpreter at `requested`, given the interpreters of
/// the Conda environments and of the virtual environments (all as resolved
/// paths): the first Conda environment whose interpreter is the same path,
/// ASCII case aside, else the first virtual environment, else none.
pub fn python_owner(requested: &str, conda_pythons: &Vec<String>, venv_pythons: &Vec<String>) -> (r: PythonOwner)
    ensures
        match r {
            PythonOwner::Conda(i) => i < conda_pythons.len() && eq_ignore_case(conda_pythons@[i as int]@, requested@)
                && forall|j: int| 0 <= j < i ==> !eq_ignore_case(#[trigger] conda_pythons@[j]@, requested@),
            PythonOwner::Venv(i) => (forall|j: int| 0 <= j < conda_pythons.len() ==> !eq_ignore_case(
                #[trigger] conda_pythons@[j]@,
                requested@,
            )) && i < venv_pythons.len() && eq_ignore_case(venv_pythons@[i as int]@, requested@) && forall|j: int|
                0 <= j < i ==> !eq_ignore_case(#[trigger] venv_pythons@[j]@, requested@),
            PythonOwner::Unmanaged => (forall|j: int| 0 <= j < conda_pythons.len() ==> !eq_ignore_case(
                #[trigger] conda_pythons@[j]@,
                requested@,
            )) && forall|j: int| 0 <= j < venv_pythons.len() ==> !eq_ignore_case(#[trigger] venv_pythons@[j]@, requested@),
        },
{
    let p = chars_of(requested);
    match first_same_exec(conda_pythons, &p) {
        Some(i) => PythonOwner::Conda(i),
        None => match first_same_exec(venv_pythons, &p) {
            Some(i) => PythonOwner::Venv(i),
            None => PythonOwner::Unmanaged,
        },
    }
}

/// An interpreter that only its owner may remove is refused; the others
/// are removed with their environment.
pub fn uninstall_refusal(owner: &PythonOwner) -> (r: Option<String>)
    ensures
        (*owner is Unmanaged) == (r is Some),
        r matches Some(m) ==> m@
            == "该 Python 属于系统安装或外部管理器，不能由本程序直接卸载；请从系统应用或原管理器中卸载"@,
{
    match owner {
        PythonOwner::Unmanaged => Some(
            "该 Python 属于系统安装或外部管理器，不能由本程序直接卸载；请从系统应用或原管理器中卸载".to_owned(),
        ),
        _ => None,
    }
}

/// The one-click upgrade of a system Python is for Windows only.
pub fn upgrade_supported(windows: bool) -> (r: Result<(), String>)
    ensures
        windows == (r is Ok),
        r matches Err(m) ==> m@ == "普通系统 Python 的一键升级当前仅支持 Windows；请使用原安装器或系统包管理器升级"@,
{
    if windows {
        Ok(())
    } else {
        Err("普通系统 Python 的一键升级当前仅支持 Windows；请使用原安装器或系统包管理器升级".to_owned())
    }
}

/// Kept by pyenv or asdf: the path has a `\.pyenv\` or `\.asdf\` folder.
pub open spec fn external_manager_path_of(path: Seq<char>) -> bool {
    contains(lower(path), "\\.pyenv\\"@) || contains(lower(path), "\\.asdf\\"@)
}

/// Why a system upgrade of the interpreter at `path` is refused, if it is:
/// Conda and virtual environments have their own way, and so do pyenv and asdf.
pub open spec fn upgrade_refusal_of(owner: PythonOwner, path: Seq<char>) -> Option<Seq<char>> {
    match owner {
        PythonOwner::Conda(_) => Some("这是 Conda 环境，请使用“Conda Python 升级”入口"@),
        PythonOwner::Venv(_) => Some("venv 不能直接替换底层 Python；请用目标 Python 重建虚拟环境并重新安装依赖"@),
        PythonOwner::Unmanaged => if external_manager_path_of(path) {
            Some("该 Python 由外部版本管理器维护，请使用 pyenv/asdf 升级"@)
        } else {
            None
        },
    }
}

pub fn upgrade_refusal(owner: &PythonOwner, path: &str) -> (r: Option<String>)
    ensures
        opt_string_view(r) == upgrade_refusal_of(*owner, path@),
{
    match owner {
        PythonOwner::Conda(_) => Some("这是 Conda 环境，请使用“Conda Python 升级”入口".to_owned()),
        PythonOwner::Venv(_) => Some(
            "venv 不能直接替换底层 Python；请用目标 Python 重建虚拟环境并重新安装依赖".to_owned(),
        ),
        PythonOwner::Unmanaged => {
            let l = lower_exec(&chars_of(path));
            if contains_exec(&l, &chars_of("\\.pyenv\\")) || contains_exec(&l, &chars_of("\\.asdf\\")) {
                Some("该 Python 由外部版本管理器维护，请使用 pyenv/asdf 升级".to_owned())
            } else {
                None
            }
        },
    }
}

/// The winget package of a Python line: `Python.Python.<major>.<minor>`.
pub open spec fn winget_package_of(major: u32, minor: u32) -> Seq<char> {
    "Python.Python."@ + decimal(major as nat) + "."@ + decimal(minor as nat)
}

pub fn winget_package_id(major: u32, minor: u32) -> (r: String)
    ensures
        r@ == winget_package_of(major, minor),
{
    let a = concat(&chars_of("Python.Python."), &decimal_exec(major as u128));
    let b = concat(&concat(&a, &chars_of(".")), &decimal_exec(minor as u128));
    to_string(&b)
}

/// The arguments of a silent, exact winget upgrade of a package.
pub fn winget_upgrade_args(package_id: &str) -> (r: Vec<String>)
    ensures
        string_views(r@) == seq![
            "upgrade"@,
            "--id"@,
            package_id@,
            "--exact"@,
            "--silent"@,
            "--accept-source-agreements"@,
            "--accept-package-agreements"@,
            "--disable-interactivity"@,
        ],
{
    let mut v: Vec<String> = Vec::new();
    push_lit(&mut v, "upgrade");
    push_lit(&mut v, "--id");
    push_lit(&mut v, package_id);
    push_lit(&mut v, "--exact");
    push_lit(&mut v, "--silent");
    push_lit(&mut v, "--accept-source-agreements");
    push_lit(&mut v, "--accept-package-agreements");
    push_lit(&mut v, "--disable-interactivity");
    v
}

/// The message of a failed winget upgrade.
pub fn winget_failure_fallback(package_id: &str) -> (r: String)
    ensures
        r@ == "winget 未能升级 "@ + package_id@,
{
    to_string(&concat(&chars_of("winget 未能升级 "), &chars_of(package_id)))
}

/// The outcome of a winget upgrade that ran: the same version as before
/// means that no update was found.
pub fn python_upgrade_result(
    current: &str,
    actual: &str,
    package_id: &str,
    command: String,
    stdout: String,
) -> (r: Result<OperationResult, String>)
    ensures
        actual@ == current@ ==> (r matches Err(m) && m@ == "未检测到 Python "@ + current@ + " 的可用更新（winget 包："@
            + package_id@ + "）"@),
        actual@ != current@ ==> (r matches Ok(o) && o.ok && o.message@ == "系统 Python 已升级："@ + current@ + " → "@
            + actual@ && o.command@ == command@ && o.output@ == stdout@),
{
    let c = chars_of(current);
    let a = chars_of(actual);
    if eq(&a, &c) {
        let m = concat(&concat(&concat(&chars_of("未检测到 Python "), &c), &chars_of(" 的可用更新（winget 包：")), &chars_of(package_id));
        return Err(to_string(&concat(&m, &chars_of("）"))));
    }
    let message = to_string(&concat(&concat(&concat(&chars_of("系统 Python 已升级："), &c), &chars_of(" → ")), &a));
    Ok(OperationResult { ok: true, message, command, output: stdout })
}

} // verus!
