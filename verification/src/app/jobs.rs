//! The asynchronous jobs of all sessions, kept in the order of their ids.

use vstd::prelude::*;
use crate::text::{concat3, decimal, decimal_text, precedes, same, texts, to_chars};

verus! {

/// A running job.
pub struct ActiveJob {
    /// The session that owns it.
    pub session_id: u128,
    pub label: String,
    /// `loop`, `timer` or `background`.
    pub kind: String,
    /// Iterations so far.
    pub iteration: u64,
    /// When it last did something, in milliseconds.
    pub last_activity: u64,
}

#[verifier::ext_equal]
pub struct JobView {
    pub session_id: u128,
    pub label: Seq<char>,
    pub kind: Seq<char>,
    pub iteration: u64,
    pub last_activity: u64,
}

impl View for ActiveJob {
    type V = JobView;

    open spec fn view(&self) -> JobView {
        JobView {
            session_id: self.session_id,
            label: self.label@,
            kind: self.kind@,
            iteration: self.iteration,
            last_activity: self.last_activity,
        }
    }
}

pub type JobSeq = Seq<(Seq<char>, JobView)>;

pub open spec fn job_views(v: Seq<(String, ActiveJob)>) -> JobSeq {
    v.map_values(|e: (String, ActiveJob)| (e.0@, e.1@))
}

// ---- Order of ids ---------------------------------------------------------

pub proof fn lemma_precedes_irreflexive(a: Seq<char>)
    ensures
        !precedes(a, a),
    decreases a.len(),
{
    if a.len() > 0 {
        lemma_precedes_irreflexive(a.drop_first());
    }
}

pub proof fn lemma_precedes_transitive(a: Seq<char>, b: Seq<char>, c: Seq<char>)
    requires
        precedes(a, b),
        precedes(b, c),
    ensures
        precedes(a, c),
    decreases a.len(),
{
    if a.len() > 0 && b.len() > 0 && c.len() > 0 {
        if a[0] == b[0] && b[0] == c[0] {
            lemma_precedes_transitive(a.drop_first(), b.drop_first(), c.drop_first());
        }
    }
}

pub proof fn lemma_precedes_total(a: Seq<char>, b: Seq<char>)
    ensures
        a == b || precedes(a, b) || precedes(b, a),
    decreases a.len(),
{
    if a.len() == 0 {
        if b.len() == 0 {
            assert(a =~= b);
        }
    } else if b.len() > 0 && a[0] == b[0] {
        lemma_precedes_total(a.drop_first(), b.drop_first());
        if a.drop_first() == b.drop_first() {
            assert(a =~= seq![a[0]] + a.drop_first());
            assert(b =~= seq![b[0]] + b.drop_first());
        }
    }
}

/// Whether `a` comes before `b` in the order of code points.
pub fn text_precedes(a: &str, b: &str) -> (r: bool)
    ensures
        r == precedes(a@, b@),
{
    let x: Vec<char> = to_chars(a);
    let y: Vec<char> = to_chars(b);
    let mut i: usize = 0;
    proof {
        assert(x@.skip(0) =~= x@);
        assert(y@.skip(0) =~= y@);
    }
    while i < x.len() && i < y.len()
        invariant
            i <= x@.len(),
            i <= y@.len(),
            x@ == a@,
            y@ == b@,
            precedes(x@, y@) == precedes(x@.skip(i as int), y@.skip(i as int)),
        decreases x@.len() - i,
    {
        proof {
            assert(x@.skip(i as int)[0] == x@[i as int]);
            assert(y@.skip(i as int)[0] == y@[i as int]);
            assert(x@.skip(i as int).drop_first() =~= x@.skip(i + 1));
            assert(y@.skip(i as int).drop_first() =~= y@.skip(i + 1));
        }
        if x[i] != y[i] {
            return x[i] < y[i];
        }
        i = i + 1;
    }
    i == x.len() && i < y.len()
}

// ---- The table ------------------------------------------------------------

/// Ids in strictly ascending order.
pub open spec fn in_order(s: JobSeq) -> bool {
    forall|i: int, j: int|
        0 <= i < j < s.len() ==> precedes((#[trigger] s[i]).0, (#[trigger] s[j]).0)
}

/// Position of the job with `id`, or the number of jobs.
pub open spec fn position_of_job(s: JobSeq, id: Seq<char>, from: int) -> int
    decreases s.len() - from,
{
    if from >= s.len() {
        s.len() as int
    } else if s[from].0 == id {
        from
    } else {
        position_of_job(s, id, from + 1)
    }
}

pub open spec fn has_job(s: JobSeq, id: Seq<char>) -> bool {
    position_of_job(s, id, 0) < s.len()
}

/// The table with the job `id` set to `job`.
pub open spec fn with_job(s: JobSeq, id: Seq<char>, job: JobView) -> JobSeq
    decreases s.len(),
{
    if s.len() == 0 || precedes(s.last().0, id) {
        s.push((id, job))
    } else if s.last().0 == id {
        s.drop_last().push((id, job))
    } else {
        with_job(s.drop_last(), id, job).push(s.last())
    }
}

/// The table without the job `id`.
pub open spec fn without_job(s: JobSeq, id: Seq<char>) -> JobSeq {
    let i = position_of_job(s, id, 0);
    if i < s.len() {
        s.remove(i)
    } else {
        s
    }
}

/// The table with the job `id` changed, if it is there.
pub open spec fn job_changed(s: JobSeq, id: Seq<char>, f: spec_fn(JobView) -> JobView) -> JobSeq {
    let i = position_of_job(s, id, 0);
    if i < s.len() {
        s.update(i, (s[i].0, f(s[i].1)))
    } else {
        s
    }
}

/// The ids of the jobs of a session, in order.
pub open spec fn session_ids(s: JobSeq, session_id: u128) -> Seq<Seq<char>>
    decreases s.len(),
{
    if s.len() == 0 {
        Seq::empty()
    } else {
        let rest = session_ids(s.drop_last(), session_id);
        if s.last().1.session_id == session_id {
            rest.push(s.last().0)
        } else {
            rest
        }
    }
}

proof fn lemma_position(s: JobSeq, id: Seq<char>, from: int)
    requires
        0 <= from <= s.len(),
    ensures
        from <= position_of_job(s, id, from) <= s.len(),
        position_of_job(s, id, from) < s.len() ==> s[position_of_job(s, id, from)].0 == id,
        forall|i: int| from <= i < position_of_job(s, id, from) ==> (#[trigger] s[i]).0 != id,
    decreases s.len() - from,
{
    if from < s.len() && s[from].0 != id {
        lemma_position(s, id, from + 1);
    }
}

/// Setting a job keeps the order, and the ids are the old ones and the new one.
pub proof fn with_job_keeps_order(s: JobSeq, id: Seq<char>, job: JobView)
    requires
        in_order(s),
    ensures
        in_order(with_job(s, id, job)),
        forall|i: int|
            0 <= i < with_job(s, id, job).len() ==> ((#[trigger] with_job(s, id, job)[i]) == (
                id,
                job,
            ) || exists|j: int| 0 <= j < s.len() && with_job(s, id, job)[i] == #[trigger] s[j]),
    decreases s.len(),
{
    let all = with_job(s, id, job);
    if s.len() == 0 || precedes(s.last().0, id) {
        assert forall|i: int, j: int| 0 <= i < j < all.len() implies precedes(
            (#[trigger] all[i]).0,
            (#[trigger] all[j]).0,
        ) by {
            if j == s.len() {
                if i < s.len() - 1 {
                    lemma_precedes_transitive(s[i].0, s[s.len() - 1].0, id);
                }
            } else {
                assert(precedes(s[i].0, s[j].0));
            }
        }
        assert forall|i: int| 0 <= i < all.len() implies ((#[trigger] all[i]) == (id, job)
            || exists|j: int| 0 <= j < s.len() && all[i] == #[trigger] s[j]) by {
            if i < s.len() {
                assert(all[i] == s[i]);
            }
        }
    } else if s.last().0 == id {
        assert forall|i: int, j: int| 0 <= i < j < all.len() implies precedes(
            (#[trigger] all[i]).0,
            (#[trigger] all[j]).0,
        ) by {
            assert(precedes(s[i].0, s[j].0));
        }
        assert forall|i: int| 0 <= i < all.len() implies ((#[trigger] all[i]) == (id, job)
            || exists|j: int| 0 <= j < s.len() && all[i] == #[trigger] s[j]) by {
            if i < s.len() - 1 {
                assert(all[i] == s[i]);
            }
        }
    } else {
        let rest = s.drop_last();
        assert forall|i: int, j: int| 0 <= i < j < rest.len() implies precedes(
            (#[trigger] rest[i]).0,
            (#[trigger] rest[j]).0,
        ) by {
            assert(precedes(s[i].0, s[j].0));
        }
        with_job_keeps_order(rest, id, job);
        let sub = with_job(rest, id, job);
        lemma_precedes_total(s.last().0, id);
        assert forall|i: int, j: int| 0 <= i < j < all.len() implies precedes(
            (#[trigger] all[i]).0,
            (#[trigger] all[j]).0,
        ) by {
            if j < sub.len() {
                assert(precedes(sub[i].0, sub[j].0));
            } else {
                assert(all[i] == sub[i]);
                if sub[i] != (id, job) {
                    let o = choose|o: int| 0 <= o < rest.len() && sub[i] == #[trigger] rest[o];
                    assert(precedes(s[o].0, s[s.len() - 1].0));
                }
            }
        }
        assert forall|i: int| 0 <= i < all.len() implies ((#[trigger] all[i]) == (id, job)
            || exists|j: int| 0 <= j < s.len() && all[i] == #[trigger] s[j]) by {
            if i < sub.len() {
                assert(all[i] == sub[i]);
                if sub[i] != (id, job) {
                    let o = choose|o: int| 0 <= o < rest.len() && sub[i] == #[trigger] rest[o];
                    assert(all[i] == s[o]);
                }
            } else {
                assert(all[i] == s[s.len() - 1]);
            }
        }
    }
}

/// Removing and changing jobs keeps the order.
pub proof fn removal_and_change_keep_order(
    s: JobSeq,
    id: Seq<char>,
    f: spec_fn(JobView) -> JobView,
)
    requires
        in_order(s),
    ensures
        in_order(without_job(s, id)),
        in_order(job_changed(s, id, f)),
{
    lemma_position(s, id, 0);
    let k = position_of_job(s, id, 0);
    let a = without_job(s, id);
    assert forall|i: int, j: int| 0 <= i < j < a.len() implies precedes(
        (#[trigger] a[i]).0,
        (#[trigger] a[j]).0,
    ) by {
        if k < s.len() {
            let x = if i < k {
                i
            } else {
                i + 1
            };
            let y = if j < k {
                j
            } else {
                j + 1
            };
            assert(precedes(s[x].0, s[y].0));
        } else {
            assert(precedes(s[i].0, s[j].0));
        }
    }
    let b = job_changed(s, id, f);
    assert forall|i: int, j: int| 0 <= i < j < b.len() implies precedes(
        (#[trigger] b[i]).0,
        (#[trigger] b[j]).0,
    ) by {
        assert(precedes(s[i].0, s[j].0));
    }
}

/// The ids of a session are ids of jobs that it owns, and no others.
pub proof fn session_ids_are_its_own(s: JobSeq, session_id: u128, id: Seq<char>)
    ensures
        session_ids(s, session_id).contains(id) <==> exists|i: int|
            0 <= i < s.len() && (#[trigger] s[i]).0 == id && s[i].1.session_id == session_id,
    decreases s.len(),
{
    if s.len() > 0 {
        let rest = s.drop_last();
        let l = s[s.len() - 1];
        session_ids_are_its_own(rest, session_id, id);
        let before = session_ids(rest, session_id);
        let all = session_ids(s, session_id);
        if all.contains(id) {
            if before.contains(id) {
                let i = choose|i: int|
                    0 <= i < rest.len() && (#[trigger] rest[i]).0 == id && rest[i].1.session_id
                        == session_id;
                assert(s[i] == rest[i]);
            } else {
                let k = choose|k: int| 0 <= k < all.len() && all[k] == id;
                if k < before.len() {
                    assert(before[k] == id);
                }
                assert(s[s.len() - 1].0 == id);
            }
        }
        if exists|i: int|
            0 <= i < s.len() && (#[trigger] s[i]).0 == id && s[i].1.session_id == session_id {
            let i = choose|i: int|
                0 <= i < s.len() && (#[trigger] s[i]).0 == id && s[i].1.session_id == session_id;
            if i < rest.len() {
                assert(rest[i] == s[i]);
                assert(before.contains(id));
                let k = choose|k: int| 0 <= k < before.len() && before[k] == id;
                assert(all[k] == id);
            } else {
                assert(all[all.len() - 1] == id);
            }
        }
    }
}

pub proof fn lemma_position_found(s: JobSeq, id: Seq<char>, from: int, i: int)
    requires
        0 <= from <= i < s.len(),
        s[i].0 == id,
    ensures
        position_of_job(s, id, from) <= i,
    decreases s.len() - from,
{
    if from < i {
        lemma_position_found(s, id, from + 1, i);
    }
}

/// The running jobs.
pub struct JobTable {
    jobs: Vec<(String, ActiveJob)>,
}

impl View for JobTable {
    type V = JobSeq;

    closed spec fn view(&self) -> JobSeq {
        job_views(self.jobs@)
    }
}

impl JobTable {
    /// The ids are in strictly ascending order.
    pub open spec fn wf(&self) -> bool {
        in_order(self@)
    }

    pub fn new() -> (r: JobTable)
        ensures
            r.wf(),
            r@ == JobSeq::empty(),
    {
        let r = JobTable { jobs: Vec::new() };
        proof {
            assert(r@ =~= JobSeq::empty());
        }
        r
    }

    pub fn len(&self) -> (r: usize)
        ensures
            r == self@.len(),
    {
        self.jobs.len()
    }

    /// Id of the job at position `i`.
    pub fn id_at(&self, i: usize) -> (r: &String)
        requires
            i < self@.len(),
        ensures
            r@ == self@[i as int].0,
    {
        &self.jobs[i].0
    }

    /// The job at position `i`.
    pub fn job_at(&self, i: usize) -> (r: &ActiveJob)
        requires
            i < self@.len(),
        ensures
            r@ == self@[i as int].1,
    {
        &self.jobs[i].1
    }

    /// Position of the job `id`, or the number of jobs.
    pub fn position(&self, id: &str) -> (r: usize)
        ensures
            r == position_of_job(self@, id@, 0),
            r <= self@.len(),
    {
        let mut i: usize = 0;
        while i < self.jobs.len() && !same(self.jobs[i].0.as_str(), id)
            invariant
                i <= self.jobs@.len(),
                position_of_job(self@, id@, 0) == position_of_job(self@, id@, i as int),
            decreases self.jobs@.len() - i,
        {
            i = i + 1;
        }
        i
    }

    pub fn has(&self, id: &str) -> (r: bool)
        ensures
            r == has_job(self@, id@),
    {
        self.position(id) < self.jobs.len()
    }

    /// Set the job `id`.
    pub fn insert(&mut self, id: String, job: ActiveJob)
        requires
            old(self).wf(),
        ensures
            final(self).wf(),
            final(self)@ == with_job(old(self)@, id@, job@),
    {
        let ghost before = self@;
        let ghost x = (id@, job@);
        let mut at: usize = self.jobs.len();
        proof {
            with_job_keeps_order(before, id@, job@);
            assert(before.take(before.len() as int) =~= before);
            assert(before.skip(before.len() as int) =~= JobSeq::empty());
            assert(with_job(before, id@, job@) =~= with_job(before, id@, job@) + JobSeq::empty());
        }
        while at > 0 && !same(self.jobs[at - 1].0.as_str(), id.as_str()) && !text_precedes(
            self.jobs[at - 1].0.as_str(),
            id.as_str(),
        )
            invariant
                at <= self.jobs@.len() == before.len(),
                self@ == before,
                x == (id@, job@),
                with_job(before, x.0, x.1) == with_job(before.take(at as int), x.0, x.1)
                    + before.skip(at as int),
            decreases at,
        {
            proof {
                assert(before[at - 1] == self@[at - 1]);
                assert(before.take(at as int).last() == before[at - 1]);
                assert(before.take(at as int).drop_last() =~= before.take(at - 1));
                assert(with_job(before.take(at as int), x.0, x.1) + before.skip(at as int)
                    =~= with_job(before.take(at - 1), x.0, x.1) + before.skip(at - 1));
            }
            at = at - 1;
        }
        proof {
            if at > 0 {
                assert(before[at - 1] == self@[at - 1]);
                assert(before.take(at as int).last() == before[at - 1]);
                lemma_precedes_irreflexive(id@);
            }
        }
        if at > 0 && same(self.jobs[at - 1].0.as_str(), id.as_str()) {
            self.jobs[at - 1].1 = job;
            proof {
                assert(self@ =~= before.update(at - 1, x));
                assert(before.take(at as int).drop_last().push(x) + before.skip(at as int)
                    =~= before.update(at - 1, x));
            }
        } else {
            self.jobs.insert(at, (id, job));
            proof {
                assert(self@ =~= before.take(at as int).push(x) + before.skip(at as int));
            }
        }
    }

    /// Remove the job `id`, if it is there.
    pub fn remove(&mut self, id: &str)
        requires
            old(self).wf(),
        ensures
            final(self).wf(),
            final(self)@ == without_job(old(self)@, id@),
    {
        let ghost before = self@;
        proof {
            removal_and_change_keep_order(before, id@, |j: JobView| j);
        }
        let i: usize = self.position(id);
        if i < self.jobs.len() {
            let _gone: (String, ActiveJob) = self.jobs.remove(i);
            proof {
                assert(self@ =~= before.remove(i as int));
            }
        }
    }

    /// The job `id` did something at `now`; `note` counts an iteration.
    pub fn touch(&mut self, id: &str, now: u64, note: bool)
        requires
            old(self).wf(),
        ensures
            final(self).wf(),
            final(self)@ == job_changed(
                old(self)@,
                id@,
                |j: JobView| job_touched(j, now, note),
            ),
    {
        let ghost before = self@;
        proof {
            removal_and_change_keep_order(before, id@, |j: JobView| job_touched(j, now, note));
        }
        let i: usize = self.position(id);
        if i < self.jobs.len() {
            if note && self.jobs[i].1.iteration < u64::MAX {
                let n: u64 = self.jobs[i].1.iteration + 1;
                self.jobs[i].1.iteration = n;
            }
            self.jobs[i].1.last_activity = now;
            proof {
                assert(self@ =~= before.update(
                    i as int,
                    (before[i as int].0, job_touched(before[i as int].1, now, note)),
                ));
            }
        }
    }

    pub fn clear(&mut self)
        ensures
            final(self).wf(),
            final(self)@ == JobSeq::empty(),
    {
        self.jobs = Vec::new();
        proof {
            assert(self@ =~= JobSeq::empty());
        }
    }
}

/// A job that did something at `now`.
pub open spec fn job_touched(j: JobView, now: u64, note: bool) -> JobView {
    JobView {
        iteration: if note && j.iteration < u64::MAX {
            (j.iteration + 1) as u64
        } else {
            j.iteration
        },
        last_activity: now,
        ..j
    }
}

/// The ids of the jobs that belong to `session_id`, in order.
pub fn session_job_ids(jobs: &JobTable, session_id: u128) -> (r: Vec<String>)
    ensures
        texts(r@) == session_ids(jobs@, session_id),
{
    let mut out: Vec<String> = Vec::new();
    let mut i: usize = 0;
    proof {
        assert(jobs@.take(0) =~= JobSeq::empty());
        assert(texts(out@) =~= Seq::empty());
    }
    while i < jobs.jobs.len()
        invariant
            i <= jobs.jobs@.len(),
            texts(out@) == session_ids(jobs@.take(i as int), session_id),
        decreases jobs.jobs@.len() - i,
    {
        let ghost before = texts(out@);
        proof {
            assert(jobs@.take(i + 1).drop_last() =~= jobs@.take(i as int));
            assert(jobs@.take(i + 1).last() == jobs@[i as int]);
        }
        if jobs.jobs[i].1.session_id == session_id {
            let id: String = jobs.jobs[i].0.clone();
            out.push(id);
            proof {
                assert(texts(out@) =~= before.push(id@));
            }
        }
        i = i + 1;
    }
    proof {
        assert(jobs@.take(i as int) =~= jobs@);
    }
    out
}

/// The line that describes a job.
pub open spec fn job_line(id: Seq<char>, j: JobView) -> Seq<char> {
    id + " ["@ + j.kind + "]"@ + (if j.kind == "background"@ {
        ""@
    } else {
        " "@ + decimal(j.iteration as nat) + " iter"@
    }) + "  "@ + j.label
}

/// The line that describes a job: its id, kind, iterations unless it runs in
/// the background, and label.
pub fn format_job_line(job_id: &str, j: &ActiveJob) -> (r: String)
    ensures
        r@ == job_line(job_id@, j@),
{
    let progress: String = if same(j.kind.as_str(), "background") {
        String::from_str("")
    } else {
        concat3(" ", decimal_text(j.iteration).as_str(), " iter")
    };
    let mut out: String = concat3(job_id, " [", j.kind.as_str());
    out.append("]");
    out.append(progress.as_str());
    out.append("  ");
    out.append(j.label.as_str());
    out
}

} // verus!
