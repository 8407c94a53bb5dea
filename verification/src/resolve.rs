//! Finding the program to run for a name: the order in which places are
//! looked at, as a machine that asks for one check at a time and is told
//! what the check found.
use vstd::prelude::*;
use crate::conda::{push_lit, string_views};
use crate::domain::opt_string_view;
use crate::package::nonblank;
use crate::process::{
    fallback_programs, fallback_programs_of, first_found_in, is_store_alias, is_store_alias_exec,
    lookup_result, native_conda_candidate_of, native_conda_executable, ProcessOutput, ProgramEnv,
    ProgramEnvView,
};
use crate::text::{chars_of, eq_ignore_case, eq_ignore_case_exec, lines, lines_exec, to_string, trim, trim_exec, views};

verus! {

/// Where the search stands.
pub enum ResolveStage {
    /// Nothing asked yet.
    Start,
    /// The saved path was asked for.
    SavedPath,
    /// The saved path is being checked.
    SavedFile(String),
    /// The name itself is being checked as a file.
    Direct,
    /// `where`/`which` was run.
    Lookup,
    /// The `conda.exe` beside the `conda.bat` that the lookup found is being checked.
    Native(String),
    /// The known place with this index is being checked.
    Fallback(usize),
    /// The Windows launcher is being checked.
    Launcher,
    /// The Windows launcher was run.
    LauncherRun,
    /// Line `index` of the launcher's output is being checked.
    LauncherLine(String, usize),
    /// The search is over.
    Done,
}

/// What a check found.
pub enum ResolveEvent {
    /// The search begins.
    Begin,
    /// The saved path of the program (uv or Conda) from the settings, if any
    /// could be read.
    Saved(Option<String>),
    /// Whether the path asked about is a file.
    IsFile(bool),
    /// What the program that was asked to run gave back.
    Output(ProcessOutput),
}

/// The program whose saved path the settings hold.
#[derive(Clone, Copy, PartialEq, Eq, Structural)]
pub enum SavedProgram {
    Uv,
    Conda,
}

/// What is to be done next.
pub enum ResolveAction {
    /// Read the saved path of this program from the settings.
    ReadSavedPath(SavedProgram),
    /// Tell whether this path is a file.
    CheckFile(String),
    /// Run this program with these arguments.
    Run(String, Vec<String>),
    /// The program is here.
    Found(String),
    /// The program is nowhere.
    NotFound,
}

pub enum StageView {
    Start,
    SavedPath,
    SavedFile(Seq<char>),
    Direct,
    Lookup,
    Native(Seq<char>),
    Fallback(nat),
    Launcher,
    LauncherRun,
    LauncherLine(Seq<char>, nat),
    Done,
}

pub enum EventView {
    Begin,
    Saved(Option<Seq<char>>),
    IsFile(bool),
    Output(bool, Seq<char>),
}

pub enum ActionView {
    ReadSavedPath(SavedProgram),
    CheckFile(Seq<char>),
    Run(Seq<char>, Seq<Seq<char>>),
    Found(Seq<char>),
    NotFound,
}

impl View for ResolveStage {
    type V = StageView;

    open spec fn view(&self) -> StageView {
        match self {
            ResolveStage::Start => StageView::Start,
            ResolveStage::SavedPath => StageView::SavedPath,
            ResolveStage::SavedFile(p) => StageView::SavedFile(p@),
            ResolveStage::Direct => StageView::Direct,
            ResolveStage::Lookup => StageView::Lookup,
            ResolveStage::Native(p) => StageView::Native(p@),
            ResolveStage::Fallback(i) => StageView::Fallback(*i as nat),
            ResolveStage::Launcher => StageView::Launcher,
            ResolveStage::LauncherRun => StageView::LauncherRun,
            ResolveStage::LauncherLine(out, i) => StageView::LauncherLine(out@, *i as nat),
            ResolveStage::Done => StageView::Done,
        }
    }
}

impl View for ResolveEvent {
    type V = EventView;

    open spec fn view(&self) -> EventView {
        match self {
            ResolveEvent::Begin => EventView::Begin,
            ResolveEvent::Saved(p) => EventView::Saved(opt_string_view(*p)),
            ResolveEvent::IsFile(b) => EventView::IsFile(*b),
            ResolveEvent::Output(o) => EventView::Output(o.ok, o.stdout@),
        }
    }
}

impl View for ResolveAction {
    type V = ActionView;

    open spec fn view(&self) -> ActionView {
        match self {
            ResolveAction::ReadSavedPath(p) => ActionView::ReadSavedPath(*p),
            ResolveAction::CheckFile(p) => ActionView::CheckFile(p@),
            ResolveAction::Run(p, a) => ActionView::Run(p@, string_views(a@)),
            ResolveAction::Found(p) => ActionView::Found(p@),
            ResolveAction::NotFound => ActionView::NotFound,
        }
    }
}

/// The Windows launcher that can tell where Python is.
pub open spec fn launcher_path() -> Seq<char> {
    "C:\\Windows\\py.exe"@
}

/// The arguments that make Python print where it is.
pub open spec fn launcher_args() -> Seq<Seq<char>> {
    seq!["-c"@, "import sys; print(sys.executable)"@]
}

/// The program that looks a name up in `PATH`.
pub open spec fn lookup_program(windows: bool) -> Seq<char> {
    if windows {
        "where.exe"@
    } else {
        "which"@
    }
}

/// After the saved path: the name itself is checked.
pub open spec fn check_name(name: Seq<char>) -> (StageView, ActionView) {
    (StageView::Direct, ActionView::CheckFile(name))
}

/// The known places from index `i` on, then the launcher for Python.
pub open spec fn fallback_from(name: Seq<char>, env: ProgramEnvView, windows: bool, i: nat) -> (StageView, ActionView) {
    let places = fallback_programs_of(name, env, windows);
    if i < places.len() {
        (StageView::Fallback(i), ActionView::CheckFile(places[i as int]))
    } else if eq_ignore_case(name, "python"@) {
        (StageView::Launcher, ActionView::CheckFile(launcher_path()))
    } else {
        (StageView::Done, ActionView::NotFound)
    }
}

/// The launcher's output lines from index `i` on.
pub open spec fn launcher_line_from(out: Seq<char>, i: nat) -> (StageView, ActionView) {
    let ls = lines(out);
    if i < ls.len() {
        (StageView::LauncherLine(out, i), ActionView::CheckFile(trim(ls[i as int])))
    } else {
        (StageView::Done, ActionView::NotFound)
    }
}

/// One step of the search for program `name`: from where it stands and what
/// the last check found, where it stands next and what is to be done.
/// The order: the saved path (uv; Conda when not blank), the name itself,
/// the first answer of `where`/`which` (for Conda on Windows, the
/// `conda.exe` beside a `conda.bat` when it is a file), the known places,
/// and for Python the path that the Windows launcher prints. A check that
/// does not fit the stage ends the search.
pub open spec fn resolve_step_of(
    name: Seq<char>,
    env: ProgramEnvView,
    windows: bool,
    stage: StageView,
    event: EventView,
) -> (StageView, ActionView) {
    let is_conda = eq_ignore_case(name, "conda"@);
    match (stage, event) {
        (StageView::Start, EventView::Begin) => if is_conda {
            (StageView::SavedPath, ActionView::ReadSavedPath(SavedProgram::Conda))
        } else if eq_ignore_case(name, "uv"@) {
            (StageView::SavedPath, ActionView::ReadSavedPath(SavedProgram::Uv))
        } else {
            check_name(name)
        },
        (StageView::SavedPath, EventView::Saved(p)) => match (if is_conda {
            nonblank(p)
        } else {
            p
        }) {
            Some(path) => (StageView::SavedFile(path), ActionView::CheckFile(path)),
            None => check_name(name),
        },
        (StageView::SavedFile(path), EventView::IsFile(b)) => if b {
            (StageView::Done, ActionView::Found(path))
        } else {
            check_name(name)
        },
        (StageView::Direct, EventView::IsFile(b)) => if b {
            (StageView::Done, ActionView::Found(name))
        } else {
            (StageView::Lookup, ActionView::Run(lookup_program(windows), seq![name]))
        },
        (StageView::Lookup, EventView::Output(_, out)) => match first_found_in(lines(out)) {
            Some(path) => if is_conda {
                match native_conda_candidate_of(path, windows) {
                    Some(exe) => (StageView::Native(path), ActionView::CheckFile(exe)),
                    None => (StageView::Done, ActionView::Found(path)),
                }
            } else {
                (StageView::Done, ActionView::Found(path))
            },
            None => fallback_from(name, env, windows, 0),
        },
        (StageView::Native(path), EventView::IsFile(b)) => if b && native_conda_candidate_of(path, windows) is Some {
            (StageView::Done, ActionView::Found(native_conda_candidate_of(path, windows)->Some_0))
        } else {
            (StageView::Done, ActionView::Found(path))
        },
        (StageView::Fallback(i), EventView::IsFile(b)) => if b && i < fallback_programs_of(name, env, windows).len() {
            (StageView::Done, ActionView::Found(fallback_programs_of(name, env, windows)[i as int]))
        } else {
            fallback_from(name, env, windows, i + 1)
        },
        (StageView::Launcher, EventView::IsFile(b)) => if b {
            (StageView::LauncherRun, ActionView::Run(launcher_path(), launcher_args()))
        } else {
            (StageView::Done, ActionView::NotFound)
        },
        (StageView::LauncherRun, EventView::Output(ok, out)) => if ok {
            launcher_line_from(out, 0)
        } else {
            (StageView::Done, ActionView::NotFound)
        },
        (StageView::LauncherLine(out, i), EventView::IsFile(b)) => if b && i < lines(out).len() && !is_store_alias(
            trim(lines(out)[i as int]),
        ) {
            (StageView::Done, ActionView::Found(trim(lines(out)[i as int])))
        } else {
            launcher_line_from(out, i + 1)
        },
        _ => (StageView::Done, ActionView::NotFound),
    }
}

fn check_name_exec(name: &str) -> (r: (ResolveStage, ResolveAction))
    ensures
        (r.0@, r.1@) == check_name(name@),
{
    (ResolveStage::Direct, ResolveAction::CheckFile(name.to_owned()))
}

fn fallback_from_exec(name: &str, env: &ProgramEnv, windows: bool, i: usize) -> (r: (ResolveStage, ResolveAction))
    ensures
        (r.0@, r.1@) == fallback_from(name@, env@, windows, i as nat),
{
    let places = fallback_programs(name, env, windows);
    if i < places.len() {
        let p = places[i].clone();
        assert(p@ == string_views(places@)[i as int]);
        (ResolveStage::Fallback(i), ResolveAction::CheckFile(p))
    } else if eq_ignore_case_exec(&chars_of(name), &chars_of("python")) {
        (ResolveStage::Launcher, ResolveAction::CheckFile("C:\\Windows\\py.exe".to_owned()))
    } else {
        (ResolveStage::Done, ResolveAction::NotFound)
    }
}

fn launcher_line_exec(out: String, i: usize) -> (r: (ResolveStage, ResolveAction))
    ensures
        (r.0@, r.1@) == launcher_line_from(out@, i as nat),
{
    let ls = lines_exec(&chars_of(out.as_str()));
    assert(views(ls@) == lines(out@));
    if i < ls.len() {
        let t = to_string(&trim_exec(&ls[i]));
        assert(ls@[i as int]@ == lines(out@)[i as int]);
        (ResolveStage::LauncherLine(out, i), ResolveAction::CheckFile(t))
    } else {
        (ResolveStage::Done, ResolveAction::NotFound)
    }
}

fn step_saved(name: &str, env: &ProgramEnv, windows: bool, p: Option<String>) -> (r: (ResolveStage, ResolveAction))
    ensures
        (r.0@, r.1@) == resolve_step_of(name@, env@, windows, StageView::SavedPath, EventView::Saved(opt_string_view(p))),
{
    let is_conda = eq_ignore_case_exec(&chars_of(name), &chars_of("conda"));
    let kept = match p {
        Some(path) => if is_conda && trim_exec(&chars_of(path.as_str())).len() == 0 {
            None
        } else {
            Some(path)
        },
        None => None,
    };
    match kept {
        Some(path) => {
            let c = path.clone();
            (ResolveStage::SavedFile(path), ResolveAction::CheckFile(c))
        },
        None => check_name_exec(name),
    }
}

fn step_direct(name: &str, env: &ProgramEnv, windows: bool, b: bool) -> (r: (ResolveStage, ResolveAction))
    ensures
        (r.0@, r.1@) == resolve_step_of(name@, env@, windows, StageView::Direct, EventView::IsFile(b)),
{
    if b {
        (ResolveStage::Done, ResolveAction::Found(name.to_owned()))
    } else {
        let program = if windows {
            "where.exe".to_owned()
        } else {
            "which".to_owned()
        };
        let mut args: Vec<String> = Vec::new();
        args.push(name.to_owned());
        assert(string_views(args@) =~= seq![name@]);
        (ResolveStage::Lookup, ResolveAction::Run(program, args))
    }
}

fn step_lookup(name: &str, env: &ProgramEnv, windows: bool, out: ProcessOutput) -> (r: (ResolveStage, ResolveAction))
    ensures
        (r.0@, r.1@) == resolve_step_of(name@, env@, windows, StageView::Lookup, EventView::Output(out.ok, out.stdout@)),
{
    let is_conda = eq_ignore_case_exec(&chars_of(name), &chars_of("conda"));
    match lookup_result(out.stdout.as_str()) {
        Some(path) => {
            if is_conda {
                match native_conda_executable(path.as_str(), windows) {
                    Some(exe) => (ResolveStage::Native(path), ResolveAction::CheckFile(exe)),
                    None => (ResolveStage::Done, ResolveAction::Found(path)),
                }
            } else {
                (ResolveStage::Done, ResolveAction::Found(path))
            }
        },
        None => fallback_from_exec(name, env, windows, 0),
    }
}

fn step_native(name: &str, env: &ProgramEnv, windows: bool, path: String, b: bool) -> (r: (ResolveStage, ResolveAction))
    ensures
        (r.0@, r.1@) == resolve_step_of(name@, env@, windows, StageView::Native(path@), EventView::IsFile(b)),
{
    match native_conda_executable(path.as_str(), windows) {
        Some(exe) => if b {
            (ResolveStage::Done, ResolveAction::Found(exe))
        } else {
            (ResolveStage::Done, ResolveAction::Found(path))
        },
        None => (ResolveStage::Done, ResolveAction::Found(path)),
    }
}

fn step_fallback(name: &str, env: &ProgramEnv, windows: bool, i: usize, b: bool) -> (r: (ResolveStage, ResolveAction))
    ensures
        (r.0@, r.1@) == resolve_step_of(name@, env@, windows, StageView::Fallback(i as nat), EventView::IsFile(b)),
{
    let places = fallback_programs(name, env, windows);
    assert(string_views(places@).len() == places.len());
    if b && i < places.len() {
        let p = places[i].clone();
        assert(p@ == string_views(places@)[i as int]);
        (ResolveStage::Done, ResolveAction::Found(p))
    } else if i < usize::MAX {
        fallback_from_exec(name, env, windows, i + 1)
    } else if eq_ignore_case_exec(&chars_of(name), &chars_of("python")) {
        (ResolveStage::Launcher, ResolveAction::CheckFile("C:\\Windows\\py.exe".to_owned()))
    } else {
        (ResolveStage::Done, ResolveAction::NotFound)
    }
}

fn step_launcher(name: &str, env: &ProgramEnv, windows: bool, b: bool) -> (r: (ResolveStage, ResolveAction))
    ensures
        (r.0@, r.1@) == resolve_step_of(name@, env@, windows, StageView::Launcher, EventView::IsFile(b)),
{
    if b {
        let mut args: Vec<String> = Vec::new();
        assert(string_views(args@) =~= Seq::<Seq<char>>::empty());
        push_lit(&mut args, "-c");
        push_lit(&mut args, "import sys; print(sys.executable)");
        assert(string_views(args@) =~= launcher_args());
        (ResolveStage::LauncherRun, ResolveAction::Run("C:\\Windows\\py.exe".to_owned(), args))
    } else {
        (ResolveStage::Done, ResolveAction::NotFound)
    }
}

fn step_launcher_line(name: &str, env: &ProgramEnv, windows: bool, out: String, i: usize, b: bool) -> (r: (
    ResolveStage,
    ResolveAction,
))
    ensures
        (r.0@, r.1@) == resolve_step_of(name@, env@, windows, StageView::LauncherLine(out@, i as nat), EventView::IsFile(b)),
{
    let ls = lines_exec(&chars_of(out.as_str()));
    assert(views(ls@) == lines(out@));
    if b && i < ls.len() {
        let t = trim_exec(&ls[i]);
        assert(ls@[i as int]@ == lines(out@)[i as int]);
        if !is_store_alias_exec(&t) {
            return (ResolveStage::Done, ResolveAction::Found(to_string(&t)));
        }
    }
    if i < usize::MAX {
        launcher_line_exec(out, i + 1)
    } else {
        (ResolveStage::Done, ResolveAction::NotFound)
    }
}

/// One step of the search for program `name` (see `resolve_step_of`).
pub fn resolve_step(name: &str, env: &ProgramEnv, windows: bool, stage: ResolveStage, event: ResolveEvent) -> (r: (
    ResolveStage,
    ResolveAction,
))
    ensures
        (r.0@, r.1@) == resolve_step_of(name@, env@, windows, stage@, event@),
{
    match (stage, event) {
        (ResolveStage::Start, ResolveEvent::Begin) => {
            let n = chars_of(name);
            if eq_ignore_case_exec(&n, &chars_of("conda")) {
                (ResolveStage::SavedPath, ResolveAction::ReadSavedPath(SavedProgram::Conda))
            } else if eq_ignore_case_exec(&n, &chars_of("uv")) {
                (ResolveStage::SavedPath, ResolveAction::ReadSavedPath(SavedProgram::Uv))
            } else {
                check_name_exec(name)
            }
        },
        (ResolveStage::SavedPath, ResolveEvent::Saved(p)) => step_saved(name, env, windows, p),
        (ResolveStage::SavedFile(path), ResolveEvent::IsFile(b)) => {
            if b {
                (ResolveStage::Done, ResolveAction::Found(path))
            } else {
                check_name_exec(name)
            }
        },
        (ResolveStage::Direct, ResolveEvent::IsFile(b)) => step_direct(name, env, windows, b),
        (ResolveStage::Lookup, ResolveEvent::Output(out)) => step_lookup(name, env, windows, out),
        (ResolveStage::Native(path), ResolveEvent::IsFile(b)) => step_native(name, env, windows, path, b),
        (ResolveStage::Fallback(i), ResolveEvent::IsFile(b)) => step_fallback(name, env, windows, i, b),
        (ResolveStage::Launcher, ResolveEvent::IsFile(b)) => step_launcher(name, env, windows, b),
        (ResolveStage::LauncherRun, ResolveEvent::Output(out)) => {
            if out.ok {
                launcher_line_exec(out.stdout, 0)
            } else {
                (ResolveStage::Done, ResolveAction::NotFound)
            }
        },
        (ResolveStage::LauncherLine(out, i), ResolveEvent::IsFile(b)) => step_launcher_line(
            name,
            env,
            windows,
            out,
            i,
            b,
        ),
        _ => (ResolveStage::Done, ResolveAction::NotFound),
    }
}

} // verus!
