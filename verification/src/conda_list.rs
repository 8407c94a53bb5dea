//! Reading `conda env list --json`: where in a command's output the document
//! may start, and what is made of the answers read there.
use vstd::prelude::*;
use crate::conda::string_views;
use crate::domain::opt_string_view;
use crate::json::{strip_bom, strip_bom_exec};
use crate::text::{chars_of, concat, slice, to_string, trim, trim_exec};

verus! {

/// The details Conda gives of one environment.
pub struct CondaEnvironmentMeta {
    pub name: Option<String>,
    pub active: Option<bool>,
}

/// The parsed `conda env list --json` document.
pub struct CondaEnvironmentList {
    pub envs: Vec<String>,
    pub envs_details: Vec<(String, CondaEnvironmentMeta)>,
}

pub type MetaView = (Option<Seq<char>>, Option<bool>);

pub struct EnvListView {
    pub envs: Seq<Seq<char>>,
    pub details: Seq<(Seq<char>, MetaView)>,
}

impl View for CondaEnvironmentMeta {
    type V = MetaView;

    open spec fn view(&self) -> MetaView {
        (opt_string_view(self.name), self.active)
    }
}

impl View for CondaEnvironmentList {
    type V = EnvListView;

    open spec fn view(&self) -> EnvListView {
        EnvListView {
            envs: self.envs@.map_values(|s: String| s@),
            details: self.envs_details@.map_values(
                |d: (String, CondaEnvironmentMeta)| (d.0@, d.1@),
            ),
        }
    }
}

/// The rest of `text` from each `{` at or after `i`, in order.
pub open spec fn brace_suffixes(text: Seq<char>, i: nat) -> Seq<Seq<char>>
    decreases text.len() - i,
{
    if i >= text.len() {
        seq![]
    } else if text[i as int] == '{' {
        seq![text.subrange(i as int, text.len() as int)] + brace_suffixes(text, i + 1)
    } else {
        brace_suffixes(text, i + 1)
    }
}

/// The texts from which the document is read in turn: from each `{` of
/// stdout, then of stderr, each with its leading byte-order marks dropped.
pub open spec fn environment_list_candidates_of(stdout: Seq<char>, stderr: Seq<char>) -> Seq<Seq<char>> {
    brace_suffixes(strip_bom(stdout), 0) + brace_suffixes(strip_bom(stderr), 0)
}

fn brace_suffixes_exec(text: &Vec<char>, out: &mut Vec<String>)
    ensures
        string_views(final(out)@) == string_views(old(out)@) + brace_suffixes(text@, 0),
{
    let ghost start = string_views(out@);
    let mut i: usize = 0;
    while i < text.len()
        invariant
            i <= text.len(),
            string_views(out@) + brace_suffixes(text@, i as nat) == start + brace_suffixes(text@, 0),
        decreases text.len() - i,
    {
        if text[i] == '{' {
            let ghost before = string_views(out@);
            let rest = to_string(&slice(text, i, text.len()));
            out.push(rest);
            assert(string_views(out@) =~= before.push(text@.subrange(i as int, text.len() as int)));
            assert(before + brace_suffixes(text@, i as nat) =~= string_views(out@) + brace_suffixes(
                text@,
                (i + 1) as nat,
            ));
        }
        i = i + 1;
    }
    assert(brace_suffixes(text@, i as nat) =~= Seq::<Seq<char>>::empty());
    assert(string_views(out@) + Seq::<Seq<char>>::empty() =~= string_views(out@));
}

/// Where `conda env list --json` may have written its document, which can
/// follow diagnostics: the rest of stdout from each `{`, then the same of
/// stderr. Each is read as the document at its start, in this order.
pub fn environment_list_candidates(stdout: &str, stderr: &str) -> (r: Vec<String>)
    ensures
        string_views(r@) == environment_list_candidates_of(stdout@, stderr@),
{
    let mut out: Vec<String> = Vec::new();
    assert(string_views(out@) =~= Seq::<Seq<char>>::empty());
    brace_suffixes_exec(&strip_bom_exec(&chars_of(stdout)), &mut out);
    brace_suffixes_exec(&strip_bom_exec(&chars_of(stderr)), &mut out);
    assert(Seq::<Seq<char>>::empty() + brace_suffixes(strip_bom(stdout@), 0) =~= brace_suffixes(
        strip_bom(stdout@),
        0,
    ));
    out
}

/// The first list that was read.
pub open spec fn first_read<T>(attempts: Seq<Result<T, Seq<char>>>) -> Option<T>
    decreases attempts.len(),
{
    if attempts.len() == 0 {
        None
    } else {
        match attempts[0] {
            Ok(x) => Some(x),
            Err(_) => first_read(attempts.drop_first()),
        }
    }
}

/// The message when no list was found.
pub open spec fn env_list_error(last: Option<Seq<char>>, stdout: Seq<char>, stderr: Seq<char>) -> Seq<
    char,
> {
    match last {
        Some(e) => "解析 Conda 环境失败: "@ + e,
        None => if trim(stderr).len() > 0 {
            "Conda 未返回有效环境 JSON: "@ + trim(stderr)
        } else if trim(stdout).len() > 0 {
            "Conda 未返回有效环境 JSON: "@ + trim(stdout)
        } else {
            "Conda 未返回环境 JSON"@
        },
    }
}

/// What is made of the answers read from the candidates, in their order:
/// the first list read; else the error of the last candidate; else, with no
/// candidate at all, what the output held.
pub open spec fn environment_list_outcome_of(
    attempts: Seq<Result<EnvListView, Seq<char>>>,
    stdout: Seq<char>,
    stderr: Seq<char>,
) -> Result<EnvListView, Seq<char>> {
    match first_read(attempts) {
        Some(l) => Ok(l),
        None => Err(
            env_list_error(
                if attempts.len() > 0 {
                    Some(attempts.last()->Err_0)
                } else {
                    None
                },
                stdout,
                stderr,
            ),
        ),
    }
}

pub open spec fn list_result_view(r: Result<CondaEnvironmentList, String>) -> Result<
    EnvListView,
    Seq<char>,
> {
    match r {
        Ok(l) => Ok(l@),
        Err(e) => Err(e@),
    }
}

pub open spec fn attempt_views(a: Seq<Result<CondaEnvironmentList, String>>) -> Seq<Result<EnvListView, Seq<char>>> {
    a.map_values(|x: Result<CondaEnvironmentList, String>| list_result_view(x))
}

/// The environment list from what was read at each candidate of
/// `environment_list_candidates`, in the same order (the answers may stop at
/// the first list read).
pub fn environment_list_outcome(
    attempts: Vec<Result<CondaEnvironmentList, String>>,
    stdout: &str,
    stderr: &str,
) -> (r: Result<CondaEnvironmentList, String>)
    ensures
        list_result_view(r) == environment_list_outcome_of(attempt_views(attempts@), stdout@, stderr@),
{
    let ghost src = attempts@;
    let ghost sv = attempt_views(src);
    let mut rest = attempts;
    let mut last: Option<String> = None;
    let mut n: usize = 0;
    assert(sv.subrange(0, sv.len() as int) =~= sv);
    assert(src.len() == rest.len());
    while rest.len() > 0
        invariant
            n + rest.len() == src.len(),
            src == attempts@,
            src.len() <= usize::MAX,
            rest@ == src.subrange(n as int, src.len() as int),
            sv == attempt_views(src),
            first_read(sv) == first_read(sv.subrange(n as int, sv.len() as int)),
            opt_string_view(last) == if n > 0 {
                Some(sv[n - 1]->Err_0)
            } else {
                None::<Seq<char>>
            },
        decreases rest.len(),
    {
        let a = rest.remove(0);
        assert(a == src[n as int]);
        assert(sv[n as int] == list_result_view(a));
        let ghost tail = sv.subrange(n as int, sv.len() as int);
        assert(tail[0] == sv[n as int]);
        assert(tail.drop_first() =~= sv.subrange(n + 1, sv.len() as int));
        match a {
            Ok(l) => {
                return Ok(l);
            },
            Err(e) => {
                last = Some(e);
            },
        }
        n = n + 1;
        assert(rest@ =~= src.subrange(n as int, src.len() as int));
    }
    assert(sv.subrange(n as int, sv.len() as int) =~= Seq::<Result<EnvListView, Seq<char>>>::empty());
    match last {
        Some(e) => {
            assert(sv.last() == sv[n - 1]);
            Err(to_string(&concat(&chars_of("解析 Conda 环境失败: "), &chars_of(e.as_str()))))
        },
        None => {
            let err_t = trim_exec(&chars_of(stderr));
            let out_t = trim_exec(&chars_of(stdout));
            if err_t.len() > 0 {
                Err(to_string(&concat(&chars_of("Conda 未返回有效环境 JSON: "), &err_t)))
            } else if out_t.len() > 0 {
                Err(to_string(&concat(&chars_of("Conda 未返回有效环境 JSON: "), &out_t)))
            } else {
                Err("Conda 未返回环境 JSON".to_owned())
            }
        },
    }
}

} // verus!
