//! Rewriting an exported Conda environment file into the file that creates a clone.
use vstd::prelude::*;
use crate::text::{
    is_space, trim_end, lower_char,
    append, chars_of, concat, ends_with, ends_with_exec, eq, find_char, find_char_from, join,
    join_exec, leading_space_end, lines, lines_exec, lower, lower_exec, slice, starts_with,
    starts_with_exec, strip_all_prefix, strip_all_prefix_exec, to_string, trim, trim_exec,
    trim_start, utf8_len, utf8_width_exec,
};

verus! {

/// Separators that end the package name in a dependency spec such as `numpy>=1.0`.
pub open spec fn is_spec_separator(c: char) -> bool {
    c == '=' || c == '<' || c == '>' || c == '!' || c == '~' || c == '[' || c == ':' || c == ' '
}

/// Index of the first separator in `s`, or `s.len()`.
pub open spec fn separator_index(s: Seq<char>) -> nat
    decreases s.len(),
{
    if s.len() == 0 {
        0
    } else if is_spec_separator(s[0]) {
        0
    } else {
        1 + separator_index(s.drop_first())
    }
}

/// The lower-cased package name of a dependency spec line.
pub open spec fn spec_name_of(spec: Seq<char>) -> Seq<char> {
    let s = strip_all_prefix(trim(spec), "- "@);
    lower(s.subrange(0, separator_index(s) as int))
}

/// Packages that only make sense inside the base installation.
pub open spec fn is_conda_only_name(name: Seq<char>) -> bool {
    name == "conda-anaconda-telemetry"@ || name == "conda-anaconda-tos"@ || name == "anaconda_prompt"@
        || name == "anaconda_powershell_prompt"@
}

pub fn spec_name(spec: &str) -> (r: String)
    ensures
        r@ == spec_name_of(spec@),
{
    to_string(&spec_name_chars(&chars_of(spec)))
}

pub fn spec_name_chars(spec: &Vec<char>) -> (r: Vec<char>)
    ensures
        r@ == spec_name_of(spec@),
{
    let t = trim_exec(spec);
    let s = strip_all_prefix_exec(&t, &chars_of("- "));
    let mut i: usize = 0;
    assert(s@.subrange(0, s.len() as int) =~= s@);
    while i < s.len() && !(s[i] == '=' || s[i] == '<' || s[i] == '>' || s[i] == '!' || s[i] == '~'
        || s[i] == '[' || s[i] == ':' || s[i] == ' ')
        invariant
            i <= s.len(),
            separator_index(s@) == i + separator_index(s@.subrange(i as int, s.len() as int)),
        decreases s.len() - i,
    {
        assert(s@.subrange(i as int, s.len() as int).drop_first() =~= s@.subrange(
            i + 1,
            s.len() as int,
        ));
        i = i + 1;
    }
    proof {
        let u = s@.subrange(i as int, s.len() as int);
        if i < s.len() {
            assert(u[0] == s@[i as int]);
        }
        assert(s@.subrange(0, s.len() as int) =~= s@);
    }
    lower_exec(&slice(&s, 0, i))
}

pub fn is_conda_only(name: &str) -> (r: bool)
    ensures
        r == is_conda_only_name(name@),
{
    is_conda_only_chars(&chars_of(name))
}

pub fn is_conda_only_chars(name: &Vec<char>) -> (r: bool)
    ensures
        r == is_conda_only_name(name@),
{
    eq(name, &chars_of("conda-anaconda-telemetry")) || eq(name, &chars_of("conda-anaconda-tos"))
        || eq(name, &chars_of("anaconda_prompt")) || eq(name, &chars_of("anaconda_powershell_prompt"))
}

/// Where the line-by-line rewrite stands.
#[derive(Clone, Copy)]
pub struct YamlState {
    pub in_dependencies: bool,
    pub in_pip: bool,
    pub has_python: bool,
}

/// What the rewrite is asked to do.
pub struct CloneOptions {
    pub name: Seq<char>,
    pub target_python: Option<Seq<char>>,
    pub clone_python: bool,
    pub clone_packages: bool,
    pub channel: Option<Seq<char>>,
}

/// The channel line written under `channels:`.
pub open spec fn channel_line(channel: Option<Seq<char>>) -> Seq<char> {
    match channel {
        Some(c) => if c.len() > 0 && c != "defaults"@ {
            "  - "@ + c
        } else {
            "  - defaults"@
        },
        None => "  - defaults"@,
    }
}

/// `spec.split('=').nth(1).unwrap_or("")`.
pub open spec fn second_eq_piece(s: Seq<char>) -> Seq<char> {
    let i = find_char(s, '=');
    if i < s.len() {
        let rest = s.subrange(i as int + 1, s.len() as int);
        rest.subrange(0, find_char(rest, '=') as int)
    } else {
        seq![]
    }
}

/// The python line of the clone: the requested version, else the exported one.
pub open spec fn python_line(spec: Seq<char>, target: Option<Seq<char>>) -> Seq<char> {
    let selected = match target {
        Some(t) => t,
        None => second_eq_piece(spec),
    };
    if selected.len() == 0 {
        "  - python"@
    } else {
        "  - python="@ + selected
    }
}

/// Bytes of leading white space of a line.
pub open spec fn indent_of(line: Seq<char>) -> int {
    utf8_len(line) - utf8_len(trim_start(line))
}

/// One line of the exported file: the new state and the lines it gives.
pub open spec fn yaml_step(st: YamlState, line: Seq<char>, o: CloneOptions) -> (YamlState, Seq<Seq<char>>) {
    let t = trim(line);
    let indent = indent_of(line);
    if starts_with(t, "name:"@) {
        (st, seq!["name: "@ + o.name])
    } else if starts_with(t, "prefix:"@) {
        (st, seq![])
    } else if t == "channels:"@ {
        (YamlState { in_dependencies: false, ..st }, seq!["channels:"@, channel_line(o.channel)])
    } else if t == "dependencies:"@ {
        (YamlState { in_dependencies: true, in_pip: false, ..st }, seq!["dependencies:"@])
    } else if st.in_dependencies && indent == 2 && starts_with(t, "- "@) {
        let spec = trim(strip_all_prefix(t, "- "@));
        let package = spec_name_of(spec);
        let in_pip = package == "pip"@ && ends_with(spec, ":"@);
        if package == "python"@ {
            (
                YamlState { in_pip: in_pip, has_python: true, ..st },
                if o.clone_python {
                    seq![python_line(spec, o.target_python)]
                } else {
                    seq![]
                },
            )
        } else {
            (
                YamlState { in_pip: in_pip, ..st },
                if o.clone_packages && !is_conda_only_name(package) {
                    seq![line]
                } else {
                    seq![]
                },
            )
        }
    } else if st.in_dependencies && st.in_pip {
        (st, if o.clone_packages && (indent > 2 || t.len() == 0) {
            seq![line]
        } else {
            seq![]
        })
    } else {
        let in_dep = st.in_dependencies && !(indent < 2 && t.len() > 0);
        (YamlState { in_dependencies: in_dep, ..st }, if !in_dep {
            seq![line]
        } else {
            seq![]
        })
    }
}

pub open spec fn yaml_initial() -> YamlState {
    YamlState { in_dependencies: false, in_pip: false, has_python: false }
}

/// The state and the lines written after the given lines of the exported file.
pub open spec fn yaml_run(ls: Seq<Seq<char>>, o: CloneOptions) -> (YamlState, Seq<Seq<char>>)
    decreases ls.len(),
{
    if ls.len() == 0 {
        (yaml_initial(), seq![])
    } else {
        let (st, out) = yaml_run(ls.drop_last(), o);
        let (st2, more) = yaml_step(st, ls.last(), o);
        (st2, out + more)
    }
}

/// Index of the first line whose trimmed text is `dependencies:`, or `ls.len()`.
pub open spec fn dependencies_index(ls: Seq<Seq<char>>) -> nat
    decreases ls.len(),
{
    if ls.len() == 0 {
        0
    } else if trim(ls[0]) == "dependencies:"@ {
        0
    } else {
        1 + dependencies_index(ls.drop_first())
    }
}

/// When python is cloned but the export named none, a bare `python` is added
/// right after the first `dependencies:` line (or in a new section at the end).
pub open spec fn yaml_finish(out: Seq<Seq<char>>, st: YamlState, clone_python: bool) -> Seq<Seq<char>> {
    if clone_python && !st.has_python {
        let i = dependencies_index(out);
        if i < out.len() {
            out.insert(i as int + 1, "  - python"@)
        } else {
            out + seq!["dependencies:"@, "  - python"@]
        }
    } else {
        out
    }
}

/// The lines of the rewritten file.
pub open spec fn clone_lines(content: Seq<char>, o: CloneOptions) -> Seq<Seq<char>> {
    let (st, out) = yaml_run(lines(content), o);
    yaml_finish(out, st, o.clone_python)
}

/// The whole rewritten file.
pub open spec fn rewrite_clone(content: Seq<char>, o: CloneOptions) -> Seq<char> {
    join(clone_lines(content, o), "\n"@)
}

pub open spec fn opt_view(o: Option<&str>) -> Option<Seq<char>> {
    match o {
        Some(s) => Some(s@),
        None => None,
    }
}

pub open spec fn vec_opt_view(o: Option<Vec<char>>) -> Option<Seq<char>> {
    match o {
        Some(s) => Some(s@),
        None => None,
    }
}

pub fn opt_chars(o: Option<&str>) -> (r: Option<Vec<char>>)
    ensures
        vec_opt_view(r) == opt_view(o),
{
    match o {
        Some(s) => Some(chars_of(s)),
        None => None,
    }
}

/// Rewrites `conda env export` output so that creating from it makes the
/// clone `name`: the name is replaced, the prefix dropped, the channel set,
/// python pinned to `target_python` (or kept), and packages kept or dropped.
pub fn rewrite_clone_yaml(
    content: &str,
    name: &str,
    target_python: Option<&str>,
    clone_python: bool,
    clone_packages: bool,
    channel: Option<&str>,
) -> (r: String)
    ensures
        r@ == rewrite_clone(
            content@,
            CloneOptions {
                name: name@,
                target_python: opt_view(target_python),
                clone_python,
                clone_packages,
                channel: opt_view(channel),
            },
        ),
{
    let ghost o = CloneOptions {
        name: name@,
        target_python: opt_view(target_python),
        clone_python,
        clone_packages,
        channel: opt_view(channel),
    };
    let opts = ExecOptions {
        name: chars_of(name),
        target_python: opt_chars(target_python),
        clone_python,
        clone_packages,
        channel: opt_chars(channel),
    };
    let ls = lines_exec(&chars_of(content));
    let ghost lsv = ls@.map_values(|l: Vec<char>| l@);
    let mut st = YamlState { in_dependencies: false, in_pip: false, has_python: false };
    let mut out: Vec<Vec<char>> = Vec::new();
    let mut i: usize = 0;
    while i < ls.len()
        invariant
            i <= ls.len(),
            lsv == ls@.map_values(|l: Vec<char>| l@),
            opts.view() == o,
            yaml_run(lsv.subrange(0, i as int), o) == (st, out@.map_values(|l: Vec<char>| l@)),
        decreases ls.len() - i,
    {
        let ghost before = out@.map_values(|l: Vec<char>| l@);
        let (st2, more) = yaml_step_exec(st, &ls[i], &opts);
        let mut more = more;
        let ghost mv = more@.map_values(|l: Vec<char>| l@);
        out.append(&mut more);
        assert(out@.map_values(|l: Vec<char>| l@) =~= before + mv);
        st = st2;
        i = i + 1;
        assert(lsv.subrange(0, i as int).drop_last() =~= lsv.subrange(0, i - 1));
    }
    assert(lsv.subrange(0, ls.len() as int) =~= lsv);
    let finished = yaml_finish_exec(out, st, clone_python);
    to_string(&join_exec(&finished, &chars_of("\n")))
}

/// Executable form of `CloneOptions`.
pub struct ExecOptions {
    pub name: Vec<char>,
    pub target_python: Option<Vec<char>>,
    pub clone_python: bool,
    pub clone_packages: bool,
    pub channel: Option<Vec<char>>,
}

impl View for ExecOptions {
    type V = CloneOptions;

    open spec fn view(&self) -> CloneOptions {
        CloneOptions {
            name: self.name@,
            target_python: vec_opt_view(self.target_python),
            clone_python: self.clone_python,
            clone_packages: self.clone_packages,
            channel: vec_opt_view(self.channel),
        }
    }
}

/// `min(utf8_len(v[0..k]), 3)`.
fn utf8_len_capped(v: &Vec<char>, k: usize) -> (r: usize)
    requires
        k <= v.len(),
    ensures
        r <= 3,
        r == 3 <==> utf8_len(v@.subrange(0, k as int)) >= 3,
        r < 3 ==> r == utf8_len(v@.subrange(0, k as int)),
{
    let mut total: usize = 0;
    let mut i: usize = 0;
    while i < k
        invariant
            i <= k <= v.len(),
            total <= 2,
            total == utf8_len(v@.subrange(0, i as int)),
        decreases k - i,
    {
        let w = utf8_width_exec(v[i]);
        assert(v@.subrange(0, i + 1).drop_last() =~= v@.subrange(0, i as int));
        if total + w > 2 {
            proof {
                crate::text::lemma_utf8_len_mono(v@.subrange(0, k as int), i + 1);
                assert(v@.subrange(0, k as int).subrange(0, i + 1) =~= v@.subrange(0, i + 1));
            }
            return 3;
        }
        total = total + w;
        i = i + 1;
    }
    total
}

/// The dependency-list branch of the step.
fn dependency_entry_step(
    st: YamlState,
    line: &Vec<char>,
    t: &Vec<char>,
    o: &ExecOptions,
) -> (r: (YamlState, Vec<Vec<char>>))
    requires
        t@ == trim(line@),
    ensures
        ({
            let spec = trim(strip_all_prefix(t@, "- "@));
            let package = spec_name_of(spec);
            let in_pip = package == "pip"@ && ends_with(spec, ":"@);
            if package == "python"@ {
                r.0 == YamlState { in_pip: in_pip, has_python: true, ..st } && r.1@.map_values(
                    |l: Vec<char>| l@,
                ) == if o@.clone_python {
                    seq![python_line(spec, o@.target_python)]
                } else {
                    Seq::<Seq<char>>::empty()
                }
            } else {
                r.0 == YamlState { in_pip: in_pip, ..st } && r.1@.map_values(|l: Vec<char>| l@)
                    == if o@.clone_packages && !is_conda_only_name(package) {
                    seq![line@]
                } else {
                    Seq::<Seq<char>>::empty()
                }
            }
        }),
{
    let spec = trim_exec(&strip_all_prefix_exec(t, &chars_of("- ")));
    let package = spec_name_chars(&spec);
    let in_pip = eq(&package, &chars_of("pip")) && ends_with_exec(&spec, &chars_of(":"));
    let mut more: Vec<Vec<char>> = Vec::new();
    if eq(&package, &chars_of("python")) {
        if o.clone_python {
            more.push(python_line_exec(&spec, &o.target_python));
        }
        assert(more@.map_values(|l: Vec<char>| l@) =~= (if o@.clone_python {
            seq![python_line(spec@, o@.target_python)]
        } else {
            Seq::<Seq<char>>::empty()
        }));
        (YamlState { in_pip: in_pip, has_python: true, ..st }, more)
    } else {
        if o.clone_packages && !is_conda_only_chars(&package) {
            more.push(line.clone());
        }
        assert(more@.map_values(|l: Vec<char>| l@) =~= (if o@.clone_packages && !is_conda_only_name(
            package@,
        ) {
            seq![line@]
        } else {
            Seq::<Seq<char>>::empty()
        }));
        (YamlState { in_pip: in_pip, ..st }, more)
    }
}

fn second_eq_piece_exec(s: &Vec<char>) -> (r: Vec<char>)
    ensures
        r@ == second_eq_piece(s@),
{
    let i = find_char_from(s, '=', 0);
    assert(s@.subrange(0, s.len() as int) =~= s@);
    if i < s.len() {
        let rest = slice(s, i + 1, s.len());
        let j = find_char_from(&rest, '=', 0);
        assert(rest@.subrange(0, rest.len() as int) =~= rest@);
        slice(&rest, 0, j)
    } else {
        Vec::new()
    }
}

fn python_line_exec(spec: &Vec<char>, target: &Option<Vec<char>>) -> (r: Vec<char>)
    ensures
        r@ == python_line(spec@, vec_opt_view(*target)),
{
    let selected = match target {
        Some(t) => t.clone(),
        None => second_eq_piece_exec(spec),
    };
    if selected.len() == 0 {
        chars_of("  - python")
    } else {
        concat(&chars_of("  - python="), &selected)
    }
}

fn channel_line_exec(channel: &Option<Vec<char>>) -> (r: Vec<char>)
    ensures
        r@ == channel_line(vec_opt_view(*channel)),
{
    match channel {
        Some(c) => {
            if c.len() > 0 && !eq(c, &chars_of("defaults")) {
                concat(&chars_of("  - "), c)
            } else {
                chars_of("  - defaults")
            }
        },
        None => chars_of("  - defaults"),
    }
}

/// One step of the rewrite.
fn yaml_step_exec(st: YamlState, line: &Vec<char>, o: &ExecOptions) -> (r: (YamlState, Vec<Vec<char>>))
    ensures
        (r.0, r.1@.map_values(|l: Vec<char>| l@)) == yaml_step(st, line@, o@),
{
    let t = trim_exec(line);
    let k = leading_space_end(line);
    let indent = utf8_len_capped(line, k);
    proof {
        assert(line@ =~= line@.subrange(0, k as int) + line@.subrange(k as int, line.len() as int));
        crate::text::lemma_utf8_len_add(line@.subrange(0, k as int), line@.subrange(k as int, line.len() as int));
    }
    let ghost ind = indent_of(line@);
    assert(ind == utf8_len(line@.subrange(0, k as int)));
    let mut more: Vec<Vec<char>> = Vec::new();
    if starts_with_exec(&t, &chars_of("name:")) {
        more.push(concat(&chars_of("name: "), &o.name));
        assert(more@.map_values(|l: Vec<char>| l@) =~= seq!["name: "@ + o@.name]);
        (st, more)
    } else if starts_with_exec(&t, &chars_of("prefix:")) {
        assert(more@.map_values(|l: Vec<char>| l@) =~= Seq::<Seq<char>>::empty());
        (st, more)
    } else if eq(&t, &chars_of("channels:")) {
        more.push(chars_of("channels:"));
        more.push(channel_line_exec(&o.channel));
        assert(more@.map_values(|l: Vec<char>| l@) =~= seq![
            "channels:"@,
            channel_line(o@.channel),
        ]);
        (YamlState { in_dependencies: false, ..st }, more)
    } else if eq(&t, &chars_of("dependencies:")) {
        more.push(chars_of("dependencies:"));
        assert(more@.map_values(|l: Vec<char>| l@) =~= seq!["dependencies:"@]);
        (YamlState { in_dependencies: true, in_pip: false, ..st }, more)
    } else if st.in_dependencies && indent == 2 && starts_with_exec(&t, &chars_of("- ")) {
        dependency_entry_step(st, line, &t, o)
    } else if st.in_dependencies && st.in_pip {
        if o.clone_packages && (indent > 2 || t.len() == 0) {
            more.push(line.clone());
        }
        assert(more@.map_values(|l: Vec<char>| l@) =~= (if o@.clone_packages && (ind > 2 || t@.len()
            == 0) {
            seq![line@]
        } else {
            Seq::<Seq<char>>::empty()
        }));
        (st, more)
    } else {
        let in_dep = st.in_dependencies && !(indent < 2 && t.len() > 0);
        if !in_dep {
            more.push(line.clone());
        }
        assert(more@.map_values(|l: Vec<char>| l@) =~= (if !in_dep {
            seq![line@]
        } else {
            Seq::<Seq<char>>::empty()
        }));
        (YamlState { in_dependencies: in_dep, ..st }, more)
    }
}

fn yaml_finish_exec(out: Vec<Vec<char>>, st: YamlState, clone_python: bool) -> (r: Vec<Vec<char>>)
    ensures
        r@.map_values(|l: Vec<char>| l@) == yaml_finish(
            out@.map_values(|l: Vec<char>| l@),
            st,
            clone_python,
        ),
{
    let ghost ov = out@.map_values(|l: Vec<char>| l@);
    if !(clone_python && !st.has_python) {
        return out;
    }
    let target = chars_of("dependencies:");
    let mut i: usize = 0;
    assert(ov.subrange(0, ov.len() as int) =~= ov);
    while i < out.len() && !eq(&trim_exec(&out[i]), &target)
        invariant
            i <= out.len(),
            ov == out@.map_values(|l: Vec<char>| l@),
            target@ == "dependencies:"@,
            dependencies_index(ov) == i + dependencies_index(ov.subrange(i as int, ov.len() as int)),
        decreases out.len() - i,
    {
        assert(ov.subrange(i as int, ov.len() as int).drop_first() =~= ov.subrange(
            i + 1,
            ov.len() as int,
        ));
        i = i + 1;
    }
    proof {
        let u = ov.subrange(i as int, ov.len() as int);
        if i < out.len() {
            assert(u[0] == ov[i as int]);
        }
        assert(ov.subrange(0, ov.len() as int) =~= ov);
    }
    let mut r = out;
    if i < r.len() {
        r.insert(i + 1, chars_of("  - python"));
        assert(r@.map_values(|l: Vec<char>| l@) =~= ov.insert(i + 1, "  - python"@));
    } else {
        r.push(chars_of("dependencies:"));
        r.push(chars_of("  - python"));
        assert(r@.map_values(|l: Vec<char>| l@) =~= ov + seq!["dependencies:"@, "  - python"@]);
    }
    r
}

/// A text whose first character is not white space keeps it first at its end trimmed.
proof fn lemma_trim_end_keeps_first(s: Seq<char>)
    requires
        s.len() > 0,
        !is_space(s[0]),
    ensures
        trim_end(s).len() > 0,
        trim_end(s)[0] == s[0],
    decreases s.len(),
{
    if is_space(s.last()) {
        assert(s.len() > 1);
        lemma_trim_end_keeps_first(s.drop_last());
    }
}

/// Trimming a text skips its leading white space: the first character left
/// is the first one that is not white space.
proof fn lemma_trim_skips_spaces(s: Seq<char>, k: int)
    requires
        0 <= k < s.len(),
        forall|j: int| 0 <= j < k ==> is_space(#[trigger] s[j]),
        !is_space(s[k]),
    ensures
        trim(s).len() > 0,
        trim(s)[0] == s[k],
    decreases k,
{
    if k == 0 {
        lemma_trim_end_keeps_first(s);
    } else {
        let d = s.drop_first();
        assert forall|j: int| 0 <= j < k - 1 implies is_space(#[trigger] d[j]) by {
            assert(d[j] == s[j + 1]);
        }
        lemma_trim_skips_spaces(d, k - 1);
        assert(is_space(s[0]));
        assert(trim_start(s) == trim_start(d));
    }
}

/// A line whose first character after its leading white space is not `p`
/// does not start with `prefix:` once trimmed.
proof fn lemma_not_prefix_line(l: Seq<char>, k: int)
    requires
        0 <= k < l.len(),
        forall|j: int| 0 <= j < k ==> is_space(#[trigger] l[j]),
        !is_space(l[k]),
        l[k] != 'p',
    ensures
        !starts_with(trim(l), "prefix:"@),
{
    lemma_trim_skips_spaces(l, k);
    reveal_strlit("prefix:");
    if starts_with(trim(l), "prefix:"@) {
        assert(trim(l).subrange(0, 7)[0] == trim(l)[0]);
    }
}

/// A line written under `dependencies:` or `channels:` by the rewrite
/// itself (`  - ...`).
proof fn lemma_entry_line(l: Seq<char>)
    requires
        l.len() >= 3,
        l[0] == ' ',
        l[1] == ' ',
        l[2] == '-',
    ensures
        !starts_with(trim(l), "prefix:"@),
{
    assert forall|j: int| 0 <= j < 2 implies is_space(#[trigger] l[j]) by {}
    lemma_not_prefix_line(l, 2);
}

proof fn lemma_lead_line(l: Seq<char>)
    requires
        l.len() > 0,
        l[0] == 'n' || l[0] == 'c' || l[0] == 'd',
    ensures
        !starts_with(trim(l), "prefix:"@),
{
    lemma_not_prefix_line(l, 0);
}

pub open spec fn no_prefix_line(ls: Seq<Seq<char>>) -> bool {
    forall|i: int| 0 <= i < ls.len() ==> !starts_with(trim(#[trigger] ls[i]), "prefix:"@)
}

proof fn lemma_step_no_prefix(st: YamlState, line: Seq<char>, o: CloneOptions)
    ensures
        no_prefix_line(yaml_step(st, line, o).1),
{
    let t = trim(line);
    let out = yaml_step(st, line, o).1;
    reveal_strlit("name: ");
    reveal_strlit("channels:");
    reveal_strlit("dependencies:");
    reveal_strlit("  - defaults");
    reveal_strlit("  - python");
    reveal_strlit("  - python=");
    reveal_strlit("defaults");
    reveal_strlit("  - ");
    if starts_with(t, "name:"@) {
        lemma_lead_line("name: "@ + o.name);
        assert(out =~= seq!["name: "@ + o.name]);
    } else if starts_with(t, "prefix:"@) {
    } else if t == "channels:"@ {
        lemma_lead_line("channels:"@);
        let c = channel_line(o.channel);
        match o.channel {
            Some(ch) => if ch.len() > 0 && ch != "defaults"@ {
                lemma_entry_line("  - "@ + ch);
            } else {
                lemma_entry_line("  - defaults"@);
            },
            None => {
                lemma_entry_line("  - defaults"@);
            },
        }
        assert(out =~= seq!["channels:"@, c]);
    } else if t == "dependencies:"@ {
        lemma_lead_line("dependencies:"@);
        assert(out =~= seq!["dependencies:"@]);
    } else if st.in_dependencies && indent_of(line) == 2 && starts_with(t, "- "@) {
        let spec = trim(strip_all_prefix(t, "- "@));
        if spec_name_of(spec) == "python"@ && o.clone_python {
            let selected = match o.target_python {
                Some(x) => x,
                None => second_eq_piece(spec),
            };
            lemma_entry_line("  - python"@);
            lemma_entry_line("  - python="@ + selected);
        }
    }
}

proof fn lemma_run_no_prefix(ls: Seq<Seq<char>>, o: CloneOptions)
    ensures
        no_prefix_line(yaml_run(ls, o).1),
    decreases ls.len(),
{
    if ls.len() > 0 {
        lemma_run_no_prefix(ls.drop_last(), o);
        let (st, out) = yaml_run(ls.drop_last(), o);
        lemma_step_no_prefix(st, ls.last(), o);
        let more = yaml_step(st, ls.last(), o).1;
        assert forall|i: int| 0 <= i < (out + more).len() implies !starts_with(trim(#[trigger] (out + more)[i]), "prefix:"@) by {
            if i < out.len() {
                assert((out + more)[i] == out[i]);
            } else {
                assert((out + more)[i] == more[i - out.len()]);
            }
        }
    }
}

/// The rewritten clone never keeps a `prefix:` line, which would point the
/// new environment at the source's folder: no line of it starts with
/// `prefix:` once trimmed.
pub proof fn law_clone_drops_prefix(content: Seq<char>, o: CloneOptions)
    ensures
        no_prefix_line(clone_lines(content, o)),
{
    let (st, out) = yaml_run(lines(content), o);
    lemma_run_no_prefix(lines(content), o);
    if o.clone_python && !st.has_python {
        let i = dependencies_index(out);
        reveal_strlit("  - python");
        reveal_strlit("dependencies:");
        lemma_entry_line("  - python"@);
        lemma_lead_line("dependencies:"@);
        if i < out.len() {
            let r = out.insert(i as int + 1, "  - python"@);
            assert forall|k: int| 0 <= k < r.len() implies !starts_with(trim(#[trigger] r[k]), "prefix:"@) by {
                if k < i + 1 {
                    assert(r[k] == out[k]);
                } else if k > i + 1 {
                    assert(r[k] == out[k - 1]);
                }
            }
        } else {
            let r = out + seq!["dependencies:"@, "  - python"@];
            assert forall|k: int| 0 <= k < r.len() implies !starts_with(trim(#[trigger] r[k]), "prefix:"@) by {
                if k < out.len() {
                    assert(r[k] == out[k]);
                }
            }
        }
    }
}


/// The state and the lines written when the given lines are read from state `st` on.
pub open spec fn run_from(st: YamlState, ls: Seq<Seq<char>>, o: CloneOptions) -> (YamlState, Seq<Seq<char>>)
    decreases ls.len(),
{
    if ls.len() == 0 {
        (st, seq![])
    } else {
        let (s1, m) = yaml_step(st, ls[0], o);
        let (s2, rest) = run_from(s1, ls.drop_first(), o);
        (s2, m + rest)
    }
}

/// Reading `a + b` is reading `a`, then `b` from where `a` left the state.
proof fn lemma_run_split(a: Seq<Seq<char>>, b: Seq<Seq<char>>, o: CloneOptions)
    ensures
        yaml_run(a + b, o) == (
            run_from(yaml_run(a, o).0, b, o).0,
            yaml_run(a, o).1 + run_from(yaml_run(a, o).0, b, o).1,
        ),
    decreases b.len(),
{
    let (st, out) = yaml_run(a, o);
    if b.len() == 0 {
        assert(a + b =~= a);
        assert(out + Seq::<Seq<char>>::empty() =~= out);
    } else {
        let a2 = a.push(b[0]);
        let b2 = b.drop_first();
        assert(a2.drop_last() =~= a);
        assert(a2.last() == b[0]);
        assert(a + b =~= a2 + b2);
        lemma_run_split(a2, b2, o);
        let (s1, m) = yaml_step(st, b[0], o);
        assert(yaml_run(a2, o) == (s1, out + m));
        let (s2, rest) = run_from(s1, b2, o);
        assert((out + m) + rest =~= out + (m + rest));
    }
}

/// A line that leaves the state as it is and writes nothing can be put
/// anywhere without changing what is read.
proof fn lemma_run_insert_silent(ls: Seq<Seq<char>>, k: int, l: Seq<char>, o: CloneOptions)
    requires
        0 <= k <= ls.len(),
        yaml_step(yaml_run(ls.subrange(0, k), o).0, l, o) == (
            yaml_run(ls.subrange(0, k), o).0,
            Seq::<Seq<char>>::empty(),
        ),
    ensures
        yaml_run(ls.insert(k, l), o) == yaml_run(ls, o),
{
    let a = ls.subrange(0, k);
    let r = ls.subrange(k, ls.len() as int);
    let lr = seq![l] + r;
    assert(ls =~= a + r);
    assert(ls.insert(k, l) =~= a + lr);
    lemma_run_split(a, r, o);
    lemma_run_split(a, lr, o);
    let st = yaml_run(a, o).0;
    assert(lr[0] == l);
    assert(lr.drop_first() =~= r);
    assert(Seq::<Seq<char>>::empty() + run_from(st, r, o).1 =~= run_from(st, r, o).1);
}

/// A `prefix:` line is dropped whatever the state, and changes nothing.
proof fn lemma_prefix_step(st: YamlState, l: Seq<char>, o: CloneOptions)
    requires
        starts_with(trim(l), "prefix:"@),
    ensures
        yaml_step(st, l, o) == (st, Seq::<Seq<char>>::empty()),
{
    reveal_strlit("prefix:");
    reveal_strlit("name:");
    let t = trim(l);
    if starts_with(t, "name:"@) {
        assert(t.subrange(0, 7)[0] == t[0]);
        assert(t.subrange(0, 5)[0] == t[0]);
    }
}

/// Where the reading stands after a `dependencies:` line.
proof fn lemma_dependencies_step(st: YamlState, d: Seq<char>, o: CloneOptions)
    requires
        trim(d) == "dependencies:"@,
    ensures
        yaml_step(st, d, o).0 == (YamlState { in_dependencies: true, in_pip: false, ..st }),
{
    reveal_strlit("dependencies:");
    reveal_strlit("name:");
    reveal_strlit("prefix:");
    reveal_strlit("channels:");
    let t = trim(d);
    assert(!starts_with(t, "name:"@)) by {
        if starts_with(t, "name:"@) {
            assert(t.subrange(0, 5)[0] == t[0]);
        }
    }
    assert(!starts_with(t, "prefix:"@)) by {
        if starts_with(t, "prefix:"@) {
            assert(t.subrange(0, 7)[0] == t[0]);
        }
    }
    assert(t != "channels:"@) by {
        if t == "channels:"@ {
            assert(t[0] == 'd');
        }
    }
}

/// The first separator is found within the text.
proof fn lemma_separator_index_le(s: Seq<char>)
    ensures
        separator_index(s) <= s.len(),
    decreases s.len(),
{
    if s.len() > 0 && !is_spec_separator(s[0]) {
        lemma_separator_index_le(s.drop_first());
    }
}

/// A trimmed text that is not empty ends with a character that is not white space.
proof fn lemma_trim_end_last(s: Seq<char>)
    requires
        trim_end(s).len() > 0,
    ensures
        !is_space(trim_end(s).last()),
    decreases s.len(),
{
    if s.len() > 0 && is_space(s.last()) {
        lemma_trim_end_last(s.drop_last());
    }
}

/// A text trimmed at its start that is not empty starts with a character that is not white space.
proof fn lemma_trim_start_first(s: Seq<char>)
    requires
        trim_start(s).len() > 0,
    ensures
        !is_space(trim_start(s)[0]),
    decreases s.len(),
{
    if s.len() > 0 && is_space(s[0]) {
        lemma_trim_start_first(s.drop_first());
    }
}

/// Taking `p` off the front as often as it is there leaves a text that does
/// not start with `p`, and keeps the last character.
proof fn lemma_strip_all_prefix(s: Seq<char>, p: Seq<char>)
    requires
        p.len() > 0,
    ensures
        !starts_with(strip_all_prefix(s, p), p),
        strip_all_prefix(s, p).len() > 0 ==> s.len() > 0 && strip_all_prefix(s, p).last() == s.last(),
        strip_all_prefix(s, p).len() <= s.len(),
    decreases s.len(),
{
    if starts_with(s, p) {
        let rest = s.subrange(p.len() as int, s.len() as int);
        lemma_strip_all_prefix(rest, p);
        if strip_all_prefix(rest, p).len() > 0 {
            assert(rest.last() == s.last());
        }
    }
}

/// An entry `  - <x>` under `dependencies:` that names a package only the
/// base installation has is dropped, and changes nothing.
proof fn lemma_base_only_entry_step(st: YamlState, x: Seq<char>, o: CloneOptions)
    requires
        st.in_dependencies,
        !st.in_pip,
        trim(x) == x,
        is_conda_only_name(spec_name_of(x)),
    ensures
        yaml_step(st, "  - "@ + x, o) == (st, Seq::<Seq<char>>::empty()),
{
    reveal_strlit("python");
    reveal_strlit("pip");
    reveal_strlit("conda-anaconda-telemetry");
    reveal_strlit("conda-anaconda-tos");
    reveal_strlit("anaconda_prompt");
    reveal_strlit("anaconda_powershell_prompt");
    let name = spec_name_of(x);
    assert(name[0] == 'c' || name[0] == 'a');
    assert(name != "python"@) by {
        if name == "python"@ {
            assert(name.len() == 6);
        }
    }
    assert(name != "pip"@) by {
        if name == "pip"@ {
            assert(name.len() == 3);
        }
    }
    lemma_plain_entry_step(st, x, o);
}

/// An entry `  - <x>` under `dependencies:` (outside a pip list) for a
/// package other than python and pip leaves the reading where it was, and
/// is kept just when packages are cloned and the package is not one that
/// only the base installation has.
proof fn lemma_plain_entry_step(st: YamlState, x: Seq<char>, o: CloneOptions)
    requires
        st.in_dependencies,
        !st.in_pip,
        trim(x) == x,
        spec_name_of(x).len() > 0,
        !is_space(spec_name_of(x)[0]),
        spec_name_of(x) != "python"@,
        spec_name_of(x) != "pip"@,
    ensures
        yaml_step(st, "  - "@ + x, o) == (st, if o.clone_packages && !is_conda_only_name(spec_name_of(x)) {
            seq!["  - "@ + x]
        } else {
            Seq::<Seq<char>>::empty()
        }),
{
    reveal_strlit("  - ");
    reveal_strlit("- ");
    reveal_strlit("name:");
    reveal_strlit("prefix:");
    reveal_strlit("channels:");
    reveal_strlit("dependencies:");
    reveal_strlit("python");
    reveal_strlit("pip");
    reveal_strlit("conda-anaconda-telemetry");
    reveal_strlit("conda-anaconda-tos");
    reveal_strlit("anaconda_prompt");
    reveal_strlit("anaconda_powershell_prompt");
    let l = "  - "@ + x;
    let dx = "- "@ + x;
    // the package name and what it is read from
    let y = strip_all_prefix(x, "- "@);
    lemma_strip_all_prefix(x, "- "@);
    let name = spec_name_of(x);
    assert(name == lower(y.subrange(0, separator_index(y) as int)));
    assert(name.len() > 0);
    lemma_separator_index_le(y);
    assert(y.len() > 0 && separator_index(y) > 0);
    assert(y.subrange(0, separator_index(y) as int)[0] == y[0]);
    assert(name[0] == lower_char(y[0]));
    assert(!is_space(y[0]));
    assert(x.len() > 0);
    // x neither starts nor ends with white space
    lemma_trim_end_last(trim_start(x));
    assert(!is_space(x.last()));
    assert(!is_space(y.last()));
    assert(trim_start(y) == y);
    assert(trim_end(y) == y);
    assert(trim(y) == y);
    assert(strip_all_prefix(y, "- "@) == y);
    // the line, trimmed
    assert(l.drop_first().drop_first() =~= dx);
    assert(trim_start(l.drop_first()) == trim_start(dx));
    assert(trim_start(dx) == dx);
    assert(trim_start(l) == dx);
    assert(dx.last() == x.last());
    assert(trim_end(dx) == dx);
    let t = trim(l);
    assert(t == dx);
    assert(t[0] == '-');
    assert(!starts_with(t, "name:"@)) by {
        if starts_with(t, "name:"@) {
            assert(t.subrange(0, 5)[0] == t[0]);
        }
    }
    assert(!starts_with(t, "prefix:"@)) by {
        if starts_with(t, "prefix:"@) {
            assert(t.subrange(0, 7)[0] == t[0]);
        }
    }
    assert(t != "channels:"@) by {
        if t == "channels:"@ {
            assert(t[0] == 'c');
        }
    }
    assert(t != "dependencies:"@) by {
        if t == "dependencies:"@ {
            assert(t[0] == 'd');
        }
    }
    // its indent is two bytes
    let sp = seq![' ', ' '];
    assert(l =~= sp + dx);
    crate::text::lemma_utf8_len_add(sp, dx);
    assert(sp.drop_last() =~= seq![' ']);
    assert(seq![' '].drop_last() =~= Seq::<char>::empty());
    assert(utf8_len(Seq::<char>::empty()) == 0);
    assert(crate::text::utf8_width(' ') == 1);
    assert(seq![' '].last() == ' ');
    assert(utf8_len(seq![' ']) == 1);
    assert(utf8_len(sp) == 2);
    assert(indent_of(l) == 2);
    assert(t.subrange(0, 2) =~= "- "@);
    assert(starts_with(t, "- "@));
    // the entry's spec and package
    assert(t.subrange(2, t.len() as int) =~= x);
    assert(strip_all_prefix(t, "- "@) == strip_all_prefix(x, "- "@));
    let spec = trim(strip_all_prefix(t, "- "@));
    assert(spec == y);
    assert(spec_name_of(spec) == lower(y.subrange(0, separator_index(y) as int)));
    assert(spec_name_of(spec) == name);
}

/// A `prefix:` line, wherever it stands in the exported file, changes
/// nothing in the clone's file.
pub proof fn law_clone_ignores_prefix_line(content: Seq<char>, with_line: Seq<char>, k: int, l: Seq<char>, o: CloneOptions)
    requires
        0 <= k <= lines(content).len(),
        lines(with_line) == lines(content).insert(k, l),
        starts_with(trim(l), "prefix:"@),
    ensures
        rewrite_clone(with_line, o) == rewrite_clone(content, o),
{
    lemma_prefix_step(yaml_run(lines(content).subrange(0, k), o).0, l, o);
    lemma_run_insert_silent(lines(content), k, l, o);
}

/// An entry `  - <x>` right after a `dependencies:` line that names a
/// package only the base installation has (`conda-anaconda-tos` and the
/// like) changes nothing in the clone's file.
pub proof fn law_clone_ignores_base_only_entry(
    content: Seq<char>,
    with_line: Seq<char>,
    k: int,
    x: Seq<char>,
    o: CloneOptions,
)
    requires
        0 < k <= lines(content).len(),
        trim(lines(content)[k - 1]) == "dependencies:"@,
        lines(with_line) == lines(content).insert(k, "  - "@ + x),
        trim(x) == x,
        is_conda_only_name(spec_name_of(x)),
    ensures
        rewrite_clone(with_line, o) == rewrite_clone(content, o),
{
    let ls = lines(content);
    let a = ls.subrange(0, k);
    assert(a.drop_last() =~= ls.subrange(0, k - 1));
    assert(a.last() == ls[k - 1]);
    let before = yaml_run(a.drop_last(), o).0;
    lemma_dependencies_step(before, a.last(), o);
    let st = yaml_run(a, o).0;
    assert(st == (YamlState { in_dependencies: true, in_pip: false, ..before }));
    lemma_base_only_entry_step(st, x, o);
    lemma_run_insert_silent(ls, k, "  - "@ + x, o);
}

/// An entry of the dependency list: indented two bytes, a `- ` item.
pub open spec fn dependency_entry(l: Seq<char>) -> bool {
    indent_of(l) == 2 && starts_with(trim(l), "- "@)
}

/// An item nested deeper than the dependency entries (a pip package under
/// `- pip:`).
pub open spec fn nested_item(l: Seq<char>) -> bool {
    indent_of(l) > 2 && starts_with(trim(l), "- "@)
}

/// A `- ` item is none of the lines the rewrite treats on its own.
proof fn lemma_item_not_header(t: Seq<char>)
    requires
        starts_with(t, "- "@),
    ensures
        !starts_with(t, "name:"@),
        !starts_with(t, "prefix:"@),
        t != "channels:"@,
        t != "dependencies:"@,
{
    reveal_strlit("- ");
    reveal_strlit("name:");
    reveal_strlit("prefix:");
    reveal_strlit("channels:");
    reveal_strlit("dependencies:");
    assert(t.subrange(0, 2)[0] == t[0]);
    assert(t[0] == '-');
    if starts_with(t, "name:"@) {
        assert(t.subrange(0, 5)[0] == t[0]);
    }
    if starts_with(t, "prefix:"@) {
        assert(t.subrange(0, 7)[0] == t[0]);
    }
}

/// The state after the first `m` lines comes from the state after `m - 1` lines.
proof fn lemma_run_prefix_step(ls: Seq<Seq<char>>, m: int, o: CloneOptions)
    requires
        0 < m <= ls.len(),
    ensures
        yaml_run(ls.subrange(0, m), o).0 == yaml_step(yaml_run(ls.subrange(0, m - 1), o).0, ls[m - 1], o).0,
{
    assert(ls.subrange(0, m).drop_last() =~= ls.subrange(0, m - 1));
    assert(ls.subrange(0, m).last() == ls[m - 1]);
}

/// After `dependencies:` and entries only, the reading is in the dependencies.
proof fn lemma_in_dependencies(ls: Seq<Seq<char>>, j: int, m: int, o: CloneOptions)
    requires
        0 <= j < m <= ls.len(),
        trim(ls[j]) == "dependencies:"@,
        forall|i: int| j < i < m ==> dependency_entry(#[trigger] ls[i]),
    ensures
        yaml_run(ls.subrange(0, m), o).0.in_dependencies,
    decreases m - j,
{
    lemma_run_prefix_step(ls, m, o);
    if m == j + 1 {
        lemma_dependencies_step(yaml_run(ls.subrange(0, m - 1), o).0, ls[j], o);
    } else {
        lemma_in_dependencies(ls, j, m - 1, o);
        assert(dependency_entry(ls[m - 1]));
        lemma_item_not_header(trim(ls[m - 1]));
    }
}

/// `  - pip:` under the dependencies opens the pip list.
proof fn lemma_pip_entry_step(st: YamlState, o: CloneOptions)
    requires
        st.in_dependencies,
    ensures
        yaml_step(st, "  - pip:"@, o).0.in_dependencies,
        yaml_step(st, "  - pip:"@, o).0.in_pip,
{
    reveal_strlit("  - pip:");
    reveal_strlit("- pip:");
    reveal_strlit("- ");
    reveal_strlit("pip");
    reveal_strlit("pip:");
    reveal_strlit(":");
    let l = "  - pip:"@;
    let dx = "- pip:"@;
    let x = "pip:"@;
    assert(l.drop_first().drop_first() =~= dx);
    assert(l[0] == ' ' && l.drop_first()[0] == ' ');
    assert(trim_start(l) == trim_start(l.drop_first()));
    assert(trim_start(l.drop_first()) == trim_start(dx));
    assert(dx[0] == '-');
    assert(trim_start(dx) == dx);
    assert(dx.last() == ':');
    assert(trim_end(dx) == dx);
    let t = trim(l);
    assert(t == dx);
    assert(t.subrange(0, 2) =~= "- "@);
    lemma_item_not_header(t);
    let sp = seq![' ', ' '];
    assert(l =~= sp + dx);
    crate::text::lemma_utf8_len_add(sp, dx);
    assert(sp.drop_last() =~= seq![' ']);
    assert(seq![' '].drop_last() =~= Seq::<char>::empty());
    assert(utf8_len(Seq::<char>::empty()) == 0);
    assert(crate::text::utf8_width(' ') == 1);
    assert(seq![' '].last() == ' ');
    assert(utf8_len(seq![' ']) == 1);
    assert(utf8_len(sp) == 2);
    assert(indent_of(l) == 2);
    assert(t.subrange(0, 2) =~= "- "@);
    assert(t.subrange(2, t.len() as int) =~= x);
    assert(!starts_with(x, "- "@)) by {
        assert(x.subrange(0, 2)[0] == 'p');
    }
    assert(strip_all_prefix(x, "- "@) == x);
    assert(strip_all_prefix(t, "- "@) == x);
    assert(trim_start(x) == x);
    assert(trim_end(x) == x);
    let spec = trim(strip_all_prefix(t, "- "@));
    assert(spec == x);
    let d = x.drop_first();
    assert(d =~= seq!['i', 'p', ':']);
    assert(d.drop_first() =~= seq!['p', ':']);
    assert(d.drop_first().drop_first() =~= seq![':']);
    assert(separator_index(seq![':']) == 0);
    assert(separator_index(d.drop_first()) == 1);
    assert(separator_index(d) == 2);
    assert(separator_index(x) == 3);
    assert(lower(x.subrange(0, 3)) =~= "pip"@);
    assert(spec_name_of(spec) == "pip"@);
    assert(x.subrange(3, 4) =~= ":"@);
    assert(ends_with(spec, ":"@));
}

/// After `dependencies:`, entries, `  - pip:` and items nested under it, the
/// reading is in the pip list of the dependencies.
proof fn lemma_in_pip(ls: Seq<Seq<char>>, j: int, p: int, m: int, o: CloneOptions)
    requires
        0 <= j < p < m <= ls.len(),
        trim(ls[j]) == "dependencies:"@,
        forall|i: int| j < i < p ==> dependency_entry(#[trigger] ls[i]),
        ls[p] == "  - pip:"@,
        forall|i: int| p < i < m ==> nested_item(#[trigger] ls[i]),
    ensures
        yaml_run(ls.subrange(0, m), o).0.in_dependencies,
        yaml_run(ls.subrange(0, m), o).0.in_pip,
    decreases m - p,
{
    lemma_run_prefix_step(ls, m, o);
    if m == p + 1 {
        lemma_in_dependencies(ls, j, p, o);
        lemma_pip_entry_step(yaml_run(ls.subrange(0, p), o).0, o);
    } else {
        lemma_in_pip(ls, j, p, m - 1, o);
        assert(nested_item(ls[m - 1]));
        lemma_item_not_header(trim(ls[m - 1]));
    }
}

/// When packages are not cloned, the pip packages of the export are dropped
/// with the pip entry: an item nested under `  - pip:` in the dependencies
/// (after `dependencies:`, its entries, `  - pip:` and the items already
/// under it) changes nothing in the clone's file.
pub proof fn law_uncloned_pip_packages_are_dropped(
    content: Seq<char>,
    with_line: Seq<char>,
    j: int,
    p: int,
    k: int,
    l: Seq<char>,
    o: CloneOptions,
)
    requires
        !o.clone_packages,
        0 <= j < p < k <= lines(content).len(),
        trim(lines(content)[j]) == "dependencies:"@,
        forall|i: int| j < i < p ==> dependency_entry(#[trigger] lines(content)[i]),
        lines(content)[p] == "  - pip:"@,
        forall|i: int| p < i < k ==> nested_item(#[trigger] lines(content)[i]),
        nested_item(l),
        lines(with_line) == lines(content).insert(k, l),
    ensures
        rewrite_clone(with_line, o) == rewrite_clone(content, o),
{
    let ls = lines(content);
    lemma_in_pip(ls, j, p, k, o);
    let st = yaml_run(ls.subrange(0, k), o).0;
    lemma_item_not_header(trim(l));
    assert(yaml_step(st, l, o) == (st, Seq::<Seq<char>>::empty()));
    lemma_run_insert_silent(ls, k, l, o);
}

/// When packages are not cloned, an entry `  - <x>` right after a
/// `dependencies:` line for any package but python and pip changes nothing
/// in the clone's file.
pub proof fn law_uncloned_entry_is_dropped(
    content: Seq<char>,
    with_line: Seq<char>,
    k: int,
    x: Seq<char>,
    o: CloneOptions,
)
    requires
        !o.clone_packages,
        0 < k <= lines(content).len(),
        trim(lines(content)[k - 1]) == "dependencies:"@,
        lines(with_line) == lines(content).insert(k, "  - "@ + x),
        trim(x) == x,
        spec_name_of(x).len() > 0,
        !is_space(spec_name_of(x)[0]),
        spec_name_of(x) != "python"@,
        spec_name_of(x) != "pip"@,
    ensures
        rewrite_clone(with_line, o) == rewrite_clone(content, o),
{
    let ls = lines(content);
    let a = ls.subrange(0, k);
    assert(a.drop_last() =~= ls.subrange(0, k - 1));
    assert(a.last() == ls[k - 1]);
    let before = yaml_run(a.drop_last(), o).0;
    lemma_dependencies_step(before, a.last(), o);
    let st = yaml_run(a, o).0;
    assert(st == (YamlState { in_dependencies: true, in_pip: false, ..before }));
    lemma_plain_entry_step(st, x, o);
    lemma_run_insert_silent(ls, k, "  - "@ + x, o);
}

} // verus!
