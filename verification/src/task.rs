//! Long-running operations tracked as tasks: started, fed with output,
//! finished, looked up, and cleaned up an hour after they end.
use vstd::prelude::*;
use crate::domain::OperationResult;
use crate::text::{chars_of, concat, decimal, decimal_exec, to_string, trim, trim_exec, utf8_len, utf8_width, utf8_width_exec};

verus! {

/// A task as the interface sees it.
pub struct TaskSnapshot {
    pub task_id: String,
    pub task_type: String,
    pub status: String,
    pub message: String,
    pub progress: u8,
    pub output: String,
    pub command: String,
    pub started_at: u64,
    pub finished_at: Option<u64>,
}

pub struct TaskView {
    pub task_id: Seq<char>,
    pub task_type: Seq<char>,
    pub status: Seq<char>,
    pub message: Seq<char>,
    pub progress: u8,
    pub output: Seq<char>,
    pub command: Seq<char>,
    pub started_at: u64,
    pub finished_at: Option<u64>,
}

impl View for TaskSnapshot {
    type V = TaskView;

    open spec fn view(&self) -> TaskView {
        TaskView {
            task_id: self.task_id@,
            task_type: self.task_type@,
            status: self.status@,
            message: self.message@,
            progress: self.progress,
            output: self.output@,
            command: self.command@,
            started_at: self.started_at,
            finished_at: self.finished_at,
        }
    }
}

/// Output beyond this many bytes is cut.
pub const OUTPUT_LIMIT: usize = 500_000;

/// What is kept when output is cut.
pub const OUTPUT_KEEP: usize = 400_000;

/// The number of characters of the longest tail of `s` that fits in `budget` bytes.
pub open spec fn tail_chars(s: Seq<char>, budget: nat) -> nat
    decreases s.len(),
{
    if s.len() == 0 {
        0
    } else if utf8_width(s.last()) <= budget {
        1 + tail_chars(s.drop_last(), (budget - utf8_width(s.last())) as nat)
    } else {
        0
    }
}

/// Output after an append: once it is over 500 000 bytes, only the newest
/// whole characters that fit in 400 000 bytes are kept.
pub open spec fn capped_output(s: Seq<char>) -> Seq<char> {
    if utf8_len(s) > OUTPUT_LIMIT {
        s.subrange(s.len() - tail_chars(s, OUTPUT_KEEP as nat), s.len() as int)
    } else {
        s
    }
}

/// A task with the same id, everything else as given.
pub open spec fn running_task(id: Seq<char>, task_type: Seq<char>, message: Seq<char>, now: u64) -> TaskView {
    TaskView {
        task_id: id,
        task_type,
        status: "running"@,
        message,
        progress: 5,
        output: seq![],
        command: seq![],
        started_at: now,
        finished_at: None,
    }
}

/// The id of the `n`-th task started at `now`: `<now>-<n>`.
pub open spec fn task_id_of(now: u64, n: u64) -> Seq<char> {
    decimal(now as nat) + "-"@ + decimal(n as nat)
}

/// A task after its operation ended with `result` at `now`.
pub open spec fn finished_task(t: TaskView, result: Result<(Seq<char>, Seq<char>, Seq<char>), Seq<char>>, now: u64) -> TaskView {
    match result {
        Ok((message, command, output)) => TaskView {
            status: "completed"@,
            message,
            progress: 100,
            command,
            output: if trim(t.output).len() == 0 {
                output
            } else {
                t.output
            },
            finished_at: Some(now),
            ..t
        },
        Err(e) => TaskView {
            status: "failed"@,
            message: e,
            progress: 100,
            output: if trim(t.output).len() == 0 {
                e
            } else {
                t.output
            },
            finished_at: Some(now),
            ..t
        },
    }
}

pub open spec fn result_view(r: Result<OperationResult, String>) -> Result<(Seq<char>, Seq<char>, Seq<char>), Seq<char>> {
    match r {
        Ok(v) => Ok((v.message@, v.command@, v.output@)),
        Err(e) => Err(e@),
    }
}

/// The test "the task is not `id`".
pub open spec fn other_task(id: Seq<char>) -> spec_fn(TaskView) -> bool {
    |t: TaskView| t.task_id != id
}

/// The test "the task has not been over for an hour before `cutoff`".
pub open spec fn still_kept(cutoff: u64) -> spec_fn(TaskView) -> bool {
    |t: TaskView| match t.finished_at {
        Some(f) => f > cutoff,
        None => true,
    }
}

/// The task with this id, if any.
pub open spec fn find_task(ts: Seq<TaskView>, id: Seq<char>) -> Option<TaskView>
    decreases ts.len(),
{
    if ts.len() == 0 {
        None
    } else if ts[0].task_id == id {
        Some(ts[0])
    } else {
        find_task(ts.drop_first(), id)
    }
}

/// Each task id occurs once.
pub open spec fn unique_ids(ts: Seq<TaskView>) -> bool {
    forall|i: int, j: int| 0 <= i < j < ts.len() ==> #[trigger] ts[i].task_id != #[trigger] ts[j].task_id
}

/// The tasks of this run of the application.
pub struct TaskStore {
    tasks: Vec<TaskSnapshot>,
    started: u64,
}

pub open spec fn task_views(v: Seq<TaskSnapshot>) -> Seq<TaskView> {
    v.map_values(|t: TaskSnapshot| t@)
}

impl View for TaskStore {
    type V = Seq<TaskView>;

    closed spec fn view(&self) -> Seq<TaskView> {
        task_views(self.tasks@)
    }
}

fn copy_task(t: &TaskSnapshot) -> (r: TaskSnapshot)
    ensures
        r@ == t@,
{
    TaskSnapshot {
        task_id: t.task_id.clone(),
        task_type: t.task_type.clone(),
        status: t.status.clone(),
        message: t.message.clone(),
        progress: t.progress,
        output: t.output.clone(),
        command: t.command.clone(),
        started_at: t.started_at,
        finished_at: t.finished_at,
    }
}

/// The UTF-8 length of `v` exceeds `limit`.
fn utf8_len_exceeds(v: &Vec<char>, limit: usize) -> (r: bool)
    ensures
        r == (utf8_len(v@) > limit),
{
    let mut total: usize = 0;
    let mut i: usize = 0;
    while i < v.len()
        invariant
            i <= v.len(),
            total <= limit,
            total == utf8_len(v@.subrange(0, i as int)),
        decreases v.len() - i,
    {
        assert(v@.subrange(0, i + 1).drop_last() =~= v@.subrange(0, i as int));
        let w = utf8_width_exec(v[i]);
        if w > limit - total {
            proof {
                crate::text::lemma_utf8_len_mono(v@, i + 1);
            }
            return true;
        }
        total = total + w;
        i = i + 1;
    }
    assert(v@.subrange(0, v.len() as int) =~= v@);
    false
}

/// `capped_output` of the characters.
fn cap_output(v: Vec<char>) -> (r: Vec<char>)
    ensures
        r@ == capped_output(v@),
{
    if !utf8_len_exceeds(&v, OUTPUT_LIMIT) {
        return v;
    }
    let mut n: usize = v.len();
    let mut budget: usize = OUTPUT_KEEP;
    assert(v@.subrange(0, n as int) =~= v@);
    while n > 0 && utf8_width_exec(v[n - 1]) <= budget
        invariant
            n <= v.len(),
            budget <= OUTPUT_KEEP,
            tail_chars(v@, OUTPUT_KEEP as nat) == (v.len() - n) + tail_chars(v@.subrange(0, n as int), budget as nat),
        decreases n,
    {
        let ghost sub = v@.subrange(0, n as int);
        assert(sub.drop_last() =~= v@.subrange(0, n - 1));
        assert(sub.last() == v@[n - 1]);
        budget = budget - utf8_width_exec(v[n - 1]);
        n = n - 1;
    }
    proof {
        let sub = v@.subrange(0, n as int);
        if n > 0 {
            assert(sub.last() == v@[n - 1]);
        }
    }
    crate::text::slice(&v, n, v.len())
}

impl TaskStore {
    /// Each task id occurs once.
    pub closed spec fn wf(&self) -> bool {
        unique_ids(self@)
    }

    /// A well-formed store holds each task id once.
    pub proof fn lemma_wf_unique(&self)
        requires
            self.wf(),
        ensures
            unique_ids(self@),
    {
    }

    /// How many tasks have been started.
    pub closed spec fn started_count(&self) -> u64 {
        self.started
    }

    pub fn new() -> (r: TaskStore)
        ensures
            r.wf(),
            r@ == Seq::<TaskView>::empty(),
            r.started_count() == 0,
    {
        let r = TaskStore { tasks: Vec::new(), started: 0 };
        assert(r@ =~= Seq::<TaskView>::empty());
        r
    }

    /// Whether another task can be numbered.
    pub fn can_start(&self) -> (r: bool)
        ensures
            r == (self.started_count() < u64::MAX),
    {
        self.started < u64::MAX
    }

    fn position(&self, task_id: &Vec<char>) -> (r: Option<usize>)
        ensures
            match r {
                Some(i) => i < self@.len() && self@[i as int].task_id == task_id@ && find_task(self@, task_id@)
                    == Some(self@[i as int]),
                None => find_task(self@, task_id@) is None,
            },
    {
        let ghost ts = self@;
        let mut i: usize = 0;
        assert(ts.subrange(0, ts.len() as int) =~= ts);
        while i < self.tasks.len()
            invariant
                i <= self.tasks.len(),
                ts == self@,
                ts.len() == self.tasks.len(),
                find_task(ts, task_id@) == find_task(ts.subrange(i as int, ts.len() as int), task_id@),
            decreases self.tasks.len() - i,
        {
            let ghost rest = ts.subrange(i as int, ts.len() as int);
            assert(rest.drop_first() =~= ts.subrange(i + 1, ts.len() as int));
            assert(rest[0] == self.tasks@[i as int]@);
            if crate::text::eq(&chars_of(self.tasks[i].task_id.as_str()), task_id) {
                return Some(i);
            }
            i = i + 1;
        }
        None
    }

    /// The task with this id, as it stands now.
    pub fn snapshot(&self, task_id: &str) -> (r: Option<TaskSnapshot>)
        ensures
            match r {
                Some(t) => find_task(self@, task_id@) == Some(t@),
                None => find_task(self@, task_id@) is None,
            },
    {
        match self.position(&chars_of(task_id)) {
            Some(i) => Some(copy_task(&self.tasks[i])),
            None => None,
        }
    }

    /// Replaces the task at `i`.
    fn set_task(&mut self, i: usize, t: TaskSnapshot)
        requires
            i < old(self)@.len(),
            t@.task_id == old(self)@[i as int].task_id,
            old(self).wf(),
        ensures
            final(self)@ == old(self)@.update(i as int, t@),
            final(self).wf(),
            final(self).started_count() == old(self).started_count(),
    {
        let ghost before = self@;
        self.tasks.set(i, t);
        assert(self@ =~= before.update(i as int, t@));
        assert(unique_ids(self@)) by {
            assert forall|a: int, b: int| 0 <= a < b < self@.len() implies #[trigger] self@[a].task_id
                != #[trigger] self@[b].task_id by {
                assert(self@[a].task_id == before[a].task_id);
                assert(self@[b].task_id == before[b].task_id);
            }
        }
    }

    /// Starts a task with the next number: it is running, at 5 %, with no
    /// output yet. What is returned is the task as stored.
    pub fn start(&mut self, task_type: &str, message: &str, now: u64) -> (r: TaskSnapshot)
        requires
            old(self).wf(),
            old(self).started_count() < u64::MAX,
        ensures
            final(self).wf(),
            final(self).started_count() == old(self).started_count() + 1,
            r@ == running_task(task_id_of(now, final(self).started_count()), task_type@, message@, now),
            final(self)@ == old(self)@.filter(other_task(r@.task_id)).push(r@),
            find_task(final(self)@, r@.task_id) == Some(r@),
    {
        self.started = self.started + 1;
        let id = to_string(&concat(&concat(&decimal_exec(now as u128), &chars_of("-")), &decimal_exec(self.started as u128)));
        let t = TaskSnapshot {
            task_id: id,
            task_type: task_type.to_owned(),
            status: "running".to_owned(),
            message: message.to_owned(),
            progress: 5,
            output: String::new(),
            command: String::new(),
            started_at: now,
            finished_at: None,
        };
        assert(t@ == running_task(task_id_of(now, self.started), task_type@, message@, now));
        let r = copy_task(&t);
        self.remove_task(&chars_of(t.task_id.as_str()));
        let ghost b = self@;
        proof {
            lemma_filter_other_task(old(self)@, t@.task_id);
        }
        self.tasks.push(t);
        assert(self@ =~= b.push(r@));
        proof {
            lemma_find_last(self@, r@);
        }
        r
    }

    fn remove_task(&mut self, id: &Vec<char>)
        requires
            old(self).wf(),
        ensures
            final(self).wf(),
            final(self)@ == old(self)@.filter(other_task(id@)),
            final(self).started_count() == old(self).started_count(),
    {
        self.retain_where(id, 0, false);
    }

    /// Keeps the tasks that are not `id` (`by_id`) or that are still kept
    /// at `cutoff` (otherwise).
    fn retain_where(&mut self, id: &Vec<char>, cutoff: u64, by_time: bool)
        requires
            old(self).wf(),
        ensures
            final(self).wf(),
            final(self)@ == old(self)@.filter(if by_time {
                still_kept(cutoff)
            } else {
                other_task(id@)
            }),
            final(self).started_count() == old(self).started_count(),
    {
        let ghost pred = if by_time {
            still_kept(cutoff)
        } else {
            other_task(id@)
        };
        let ghost s = self@;
        let mut rest: Vec<TaskSnapshot> = Vec::new();
        std::mem::swap(&mut rest, &mut self.tasks);
        let ghost src = rest@;
        let mut n: usize = 0;
        assert(rest@ =~= src.subrange(0, src.len() as int));
        assert(src.len() == rest.len());
        assert(s.subrange(0, 0).filter(pred) =~= Seq::<TaskView>::empty()) by {
            reveal(Seq::filter);
        }
        assert(self@ =~= Seq::<TaskView>::empty());
        while rest.len() > 0
            invariant
                n + rest.len() == src.len(),
                src.len() <= usize::MAX,
                rest@ == src.subrange(n as int, src.len() as int),
                s == task_views(src),
                self@ == s.subrange(0, n as int).filter(pred),
                self.started == old(self).started,
                pred == if by_time {
                    still_kept(cutoff)
                } else {
                    other_task(id@)
                },
            decreases rest.len(),
        {
            let x = rest.remove(0);
            assert(x == src[n as int]);
            assert(x@ == s[n as int]);
            proof {
                assert(s.subrange(0, n + 1) =~= s.subrange(0, n as int).push(s[n as int]));
                s.subrange(0, n as int).lemma_filter_push(s[n as int], pred);
            }
            let keep = if by_time {
                match x.finished_at {
                    Some(f) => f > cutoff,
                    None => true,
                }
            } else {
                !crate::text::eq(&chars_of(x.task_id.as_str()), id)
            };
            assert(keep == pred(x@));
            if keep {
                let ghost b = self@;
                self.tasks.push(x);
                assert(self@ =~= b.push(s[n as int]));
            }
            n = n + 1;
            assert(rest@ =~= src.subrange(n as int, src.len() as int));
        }
        assert(s.subrange(0, n as int) =~= s);
        proof {
            lemma_filter_unique(s, pred);
        }
    }

    /// Adds output to task `task_id` (nothing happens when there is none);
    /// output over 500 000 bytes is cut to its newest 400 000 bytes.
    pub fn append_output(&mut self, task_id: &str, value: &str)
        requires
            old(self).wf(),
        ensures
            final(self).wf(),
            final(self).started_count() == old(self).started_count(),
            match find_task(old(self)@, task_id@) {
                None => final(self)@ == old(self)@,
                Some(t) => exists|i: int|
                    0 <= i < old(self)@.len() && old(self)@[i] == t && final(self)@ == old(self)@.update(
                        i,
                        TaskView { output: capped_output(t.output + value@), ..t },
                    ),
            },
            find_task(old(self)@, task_id@) matches Some(t) ==> find_task(final(self)@, task_id@) == Some(
                TaskView { output: capped_output(t.output + value@), ..t },
            ),
            forall|id: Seq<char>|
                id != task_id@ ==> #[trigger] find_task(final(self)@, id) == find_task(old(self)@, id),
    {
        match self.position(&chars_of(task_id)) {
            None => {},
            Some(i) => {
                let t = copy_task(&self.tasks[i]);
                let out = cap_output(concat(&chars_of(t.output.as_str()), &chars_of(value)));
                let nt = TaskSnapshot { output: to_string(&out), ..t };
                let ghost before = self@;
                let ghost nv = nt@;
                self.set_task(i, nt);
                proof {
                    lemma_find_after_update(before, i as int, nv);
                    assert forall|id: Seq<char>| id != task_id@ implies #[trigger] find_task(self@, id) == find_task(
                        before,
                        id,
                    ) by {
                        law_finish_leaves_others(before, i as int, nv, id);
                    }
                }
            },
        }
    }

    /// Records how task `task_id` ended (nothing happens when there is none).
    pub fn finish(&mut self, task_id: &str, result: Result<OperationResult, String>, now: u64)
        requires
            old(self).wf(),
        ensures
            final(self).wf(),
            final(self).started_count() == old(self).started_count(),
            match find_task(old(self)@, task_id@) {
                None => final(self)@ == old(self)@,
                Some(t) => exists|i: int|
                    0 <= i < old(self)@.len() && old(self)@[i] == t && final(self)@ == old(self)@.update(
                        i,
                        finished_task(t, result_view(result), now),
                    ),
            },
            find_task(old(self)@, task_id@) matches Some(t) ==> find_task(final(self)@, task_id@) == Some(
                finished_task(t, result_view(result), now),
            ),
            forall|id: Seq<char>|
                id != task_id@ ==> #[trigger] find_task(final(self)@, id) == find_task(old(self)@, id),
    {
        let ghost rv = result_view(result);
        match self.position(&chars_of(task_id)) {
            None => {},
            Some(i) => {
                let t = copy_task(&self.tasks[i]);
                let blank = trim_exec(&chars_of(t.output.as_str())).len() == 0;
                let nt = match result {
                    Ok(value) => TaskSnapshot {
                        status: "completed".to_owned(),
                        message: value.message,
                        progress: 100,
                        command: value.command,
                        output: if blank {
                            value.output
                        } else {
                            t.output
                        },
                        finished_at: Some(now),
                        ..t
                    },
                    Err(error) => {
                        let e2 = error.clone();
                        TaskSnapshot {
                            status: "failed".to_owned(),
                            message: error,
                            progress: 100,
                            output: if blank {
                                e2
                            } else {
                                t.output
                            },
                            finished_at: Some(now),
                            ..t
                        }
                    },
                };
                assert(nt@ == finished_task(self@[i as int], rv, now));
                let ghost before = self@;
                let ghost nv = nt@;
                self.set_task(i, nt);
                proof {
                    lemma_find_after_update(before, i as int, nv);
                    assert forall|id: Seq<char>| id != task_id@ implies #[trigger] find_task(self@, id) == find_task(
                        before,
                        id,
                    ) by {
                        law_finish_leaves_others(before, i as int, nv, id);
                    }
                }
            },
        }
    }

    /// Drops the tasks that ended more than an hour before `now`.
    pub fn cleanup(&mut self, now: u64)
        requires
            old(self).wf(),
        ensures
            final(self).wf(),
            final(self).started_count() == old(self).started_count(),
            final(self)@ == old(self)@.filter(still_kept(if now >= 3600 {
                (now - 3600) as u64
            } else {
                0
            })),
    {
        let cutoff = if now >= 3600 {
            now - 3600
        } else {
            0
        };
        self.retain_where(&Vec::new(), cutoff, true);
    }
}

proof fn lemma_filter_unique(s: Seq<TaskView>, pred: spec_fn(TaskView) -> bool)
    requires
        unique_ids(s),
    ensures
        unique_ids(s.filter(pred)),
    decreases s.len(),
{
    if s.len() == 0 {
        assert(s.filter(pred) =~= Seq::<TaskView>::empty()) by {
            reveal(Seq::filter);
        }
    } else {
        let q = s.drop_last();
        assert(s =~= q.push(s.last()));
        assert(unique_ids(q)) by {
            assert forall|i: int, j: int| 0 <= i < j < q.len() implies #[trigger] q[i].task_id
                != #[trigger] q[j].task_id by {
                assert(q[i] == s[i] && q[j] == s[j]);
            }
        }
        lemma_filter_unique(q, pred);
        q.lemma_filter_push(s.last(), pred);
        if pred(s.last()) {
            let r = q.filter(pred).push(s.last());
            assert forall|i: int, j: int| 0 <= i < j < r.len() implies #[trigger] r[i].task_id
                != #[trigger] r[j].task_id by {
                if j == r.len() - 1 {
                    let e = q.filter(pred)[i];
                    assert(q.filter(pred).contains(e));
                    q.lemma_filter_contains_rev(pred, e);
                    let k = choose|k: int| 0 <= k < q.len() && q[k] == e;
                    assert(s[k] == e);
                    assert(s[s.len() - 1] == s.last());
                }
            }
        }
    }
}

proof fn lemma_filter_other_task(s: Seq<TaskView>, id: Seq<char>)
    ensures
        forall|i: int| 0 <= i < s.filter(other_task(id)).len() ==> #[trigger] s.filter(other_task(id))[i].task_id != id,
{
    assert forall|i: int| 0 <= i < s.filter(other_task(id)).len() implies #[trigger] s.filter(other_task(id))[i].task_id != id by {
        let e = s.filter(other_task(id))[i];
        assert(s.filter(other_task(id)).contains(e));
        broadcast use vstd::seq_lib::group_filter_ensures;
    }
}

proof fn lemma_find_last(s: Seq<TaskView>, t: TaskView)
    requires
        s.len() > 0,
        s.last() == t,
        forall|i: int| 0 <= i < s.len() - 1 ==> #[trigger] s[i].task_id != t.task_id,
    ensures
        find_task(s, t.task_id) == Some(t),
    decreases s.len(),
{
    if s.len() > 1 {
        assert(s[0].task_id != t.task_id);
        let d = s.drop_first();
        assert forall|i: int| 0 <= i < d.len() - 1 implies #[trigger] d[i].task_id != t.task_id by {
            assert(d[i] == s[i + 1]);
        }
        lemma_find_last(d, t);
    }
}

/// The newest characters that fit in `budget` bytes do fit in it.
pub proof fn lemma_tail_fits(s: Seq<char>, budget: nat)
    ensures
        tail_chars(s, budget) <= s.len(),
        utf8_len(s.subrange(s.len() - tail_chars(s, budget), s.len() as int)) <= budget,
    decreases s.len(),
{
    if s.len() > 0 && utf8_width(s.last()) <= budget {
        let b2 = (budget - utf8_width(s.last())) as nat;
        let d = s.drop_last();
        lemma_tail_fits(d, b2);
        let k = tail_chars(d, b2);
        assert(s.subrange(s.len() - (k + 1), s.len() as int) =~= d.subrange(d.len() - k, d.len() as int) + seq![
            s.last(),
        ]);
        crate::text::lemma_utf8_len_add(d.subrange(d.len() - k, d.len() as int), seq![s.last()]);
        let one = seq![s.last()];
        assert(utf8_len(one) == utf8_width(s.last())) by {
            assert(one.drop_last() =~= Seq::<char>::empty());
            assert(one.last() == s.last());
            assert(utf8_len(one.drop_last()) == 0);
        }
    } else {
        assert(s.subrange(s.len() as int, s.len() as int) =~= Seq::<char>::empty());
    }
}

/// A task's output never grows past the limit: what is kept is the newest
/// part of it, and at most 500 000 bytes long (400 000 once it was cut).
pub proof fn law_output_is_a_bounded_tail(s: Seq<char>)
    ensures
        exists|k: int| 0 <= k <= s.len() && capped_output(s) == s.subrange(k, s.len() as int),
        utf8_len(capped_output(s)) <= OUTPUT_LIMIT,
        utf8_len(s) > OUTPUT_LIMIT ==> utf8_len(capped_output(s)) <= OUTPUT_KEEP,
{
    lemma_tail_fits(s, OUTPUT_KEEP as nat);
    if utf8_len(s) > OUTPUT_LIMIT {
        let k = s.len() - tail_chars(s, OUTPUT_KEEP as nat);
        assert(capped_output(s) == s.subrange(k, s.len() as int));
    } else {
        assert(s.subrange(0, s.len() as int) =~= s);
    }
}

/// Looking up a task after the one at `i` was replaced by a task with the
/// same id gives the replacement; the ids stay unique.
pub proof fn lemma_find_after_update(ts: Seq<TaskView>, i: int, t: TaskView)
    requires
        unique_ids(ts),
        0 <= i < ts.len(),
        t.task_id == ts[i].task_id,
    ensures
        find_task(ts.update(i, t), t.task_id) == Some(t),
        unique_ids(ts.update(i, t)),
    decreases ts.len(),
{
    let u = ts.update(i, t);
    assert forall|a: int, b: int| 0 <= a < b < u.len() implies #[trigger] u[a].task_id != #[trigger] u[b].task_id by {
        assert(u[a].task_id == ts[a].task_id);
        assert(u[b].task_id == ts[b].task_id);
    }
    if i > 0 {
        let d = ts.drop_first();
        assert(unique_ids(d)) by {
            assert forall|a: int, b: int| 0 <= a < b < d.len() implies #[trigger] d[a].task_id
                != #[trigger] d[b].task_id by {
                assert(d[a] == ts[a + 1] && d[b] == ts[b + 1]);
            }
        }
        lemma_find_after_update(d, i - 1, t);
        assert(u.drop_first() =~= d.update(i - 1, t));
        assert(u[0] == ts[0]);
        assert(ts[0].task_id != ts[i].task_id);
    }
}

/// What a lookup gives back of a finish: once a task has ended, its
/// snapshot shows it ended with that result (failed with the error as its
/// message, or completed with the result's message and command).
pub proof fn law_finish_then_snapshot(
    ts: Seq<TaskView>,
    i: int,
    result: Result<(Seq<char>, Seq<char>, Seq<char>), Seq<char>>,
    now: u64,
)
    requires
        unique_ids(ts),
        0 <= i < ts.len(),
    ensures
        find_task(ts.update(i, finished_task(ts[i], result, now)), ts[i].task_id) == Some(
            finished_task(ts[i], result, now),
        ),
        result is Err ==> finished_task(ts[i], result, now).status == "failed"@ && finished_task(ts[i], result, now).message
            == result->Err_0,
        result is Ok ==> finished_task(ts[i], result, now).status == "completed"@ && finished_task(ts[i], result, now).message
            == result->Ok_0.0,
        finished_task(ts[i], result, now).finished_at == Some(now),
{
    lemma_find_after_update(ts, i, finished_task(ts[i], result, now));
}

/// The lookup of a task is not disturbed by finishing another one.
pub proof fn law_finish_leaves_others(ts: Seq<TaskView>, i: int, t: TaskView, id: Seq<char>)
    requires
        0 <= i < ts.len(),
        t.task_id == ts[i].task_id,
        id != ts[i].task_id,
    ensures
        find_task(ts.update(i, t), id) == find_task(ts, id),
    decreases ts.len(),
{
    if i > 0 {
        law_finish_leaves_others(ts.drop_first(), i - 1, t, id);
        assert(ts.update(i, t).drop_first() =~= ts.drop_first().update(i - 1, t));
    } else {
        assert(ts.update(i, t).drop_first() =~= ts.drop_first());
    }
}

/// The clean-up never drops a task that is still running.
pub proof fn law_cleanup_keeps_running(ts: Seq<TaskView>, cutoff: u64, id: Seq<char>)
    requires
        find_task(ts, id) matches Some(t) && t.finished_at is None,
    ensures
        find_task(ts.filter(still_kept(cutoff)), id) == find_task(ts, id),
    decreases ts.len(),
{
    let f = still_kept(cutoff);
    let d = ts.drop_first();
    assert(ts =~= seq![ts[0]] + d);
    lemma_filter_front(ts, f);
    if ts[0].task_id == id {
        assert(f(ts[0]));
    } else {
        law_cleanup_keeps_running(d, cutoff, id);
        if f(ts[0]) {
            assert((seq![ts[0]] + d.filter(f)).drop_first() =~= d.filter(f));
        }
    }
}

/// Filtering a non-empty sequence: its first item, if kept, then the rest filtered.
proof fn lemma_filter_front(s: Seq<TaskView>, f: spec_fn(TaskView) -> bool)
    requires
        s.len() > 0,
    ensures
        s.filter(f) == if f(s[0]) {
            seq![s[0]] + s.drop_first().filter(f)
        } else {
            s.drop_first().filter(f)
        },
    decreases s.len(),
{
    let d = s.drop_first();
    if s.len() == 1 {
        assert(d =~= Seq::<TaskView>::empty());
        assert(d.filter(f) =~= Seq::<TaskView>::empty()) by {
            reveal(Seq::filter);
        }
        assert(s =~= Seq::<TaskView>::empty().push(s[0]));
        Seq::<TaskView>::empty().lemma_filter_push(s[0], f);
        assert(Seq::<TaskView>::empty().filter(f) =~= Seq::<TaskView>::empty()) by {
            reveal(Seq::filter);
        }
    } else {
        let q = s.drop_last();
        lemma_filter_front(q, f);
        assert(q.drop_first() =~= d.drop_last());
        assert(s =~= q.push(s.last()));
        assert(d =~= d.drop_last().push(s.last()));
        q.lemma_filter_push(s.last(), f);
        d.drop_last().lemma_filter_push(s.last(), f);
        assert(q[0] == s[0]);
    }
}

} // verus!
