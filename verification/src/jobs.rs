//! Job manager state: the jobs that run tools in the background, their
//! status lifecycle (queued → running → succeeded / failed / cancelled),
//! bounded logs, cancellation flags, eviction of old finished jobs, and the
//! HTTP answers derived from a job's state. Spawning, timing and event
//! delivery are done by the caller, which hands in timestamps and outcomes.

use vstd::prelude::*;

use crate::text::ov;

use crate::status::{catalog_index_from, catalog_row, tool_label, tool_label_spec, CATALOG_LEN};
use crate::text::{chars_of, decimal, decimal_chars, lit, push_all, push_str, str_eq, string_of};

verus! {

/// Maximum number of log lines kept per job.
pub const LOG_RING: usize = 2000;

/// Finished jobs are evicted this many milliseconds after they finished.
pub const EVICT_AFTER_MS: i64 = 600000;

#[derive(Clone, Copy, Debug, PartialEq, Eq, Structural)]
pub enum JobStatus {
    Queued,
    Running,
    Succeeded,
    Failed,
    Cancelled,
}

impl JobStatus {
    pub open spec fn is_terminal(self) -> bool {
        self is Succeeded || self is Failed || self is Cancelled
    }

    pub fn terminal(&self) -> (b: bool)
        ensures
            b == self.is_terminal(),
    {
        match self {
            JobStatus::Succeeded | JobStatus::Failed | JobStatus::Cancelled => true,
            _ => false,
        }
    }

    pub open spec fn name(self) -> Seq<char> {
        match self {
            JobStatus::Queued => "queued"@,
            JobStatus::Running => "running"@,
            JobStatus::Succeeded => "succeeded"@,
            JobStatus::Failed => "failed"@,
            JobStatus::Cancelled => "cancelled"@,
        }
    }

    pub fn as_str(&self) -> (s: &'static str)
        ensures
            s@ == self.name(),
    {
        match self {
            JobStatus::Queued => "queued",
            JobStatus::Running => "running",
            JobStatus::Succeeded => "succeeded",
            JobStatus::Failed => "failed",
            JobStatus::Cancelled => "cancelled",
        }
    }
}

/// HTTP status a job's state maps to on the result endpoints.
pub open spec fn status_code_spec(s: JobStatus) -> u16 {
    match s {
        JobStatus::Succeeded => 200,
        JobStatus::Failed => 500,
        JobStatus::Cancelled => 410,
        JobStatus::Running | JobStatus::Queued => 202,
    }
}

pub fn status_code(s: JobStatus) -> (c: u16)
    ensures
        c == status_code_spec(s),
{
    match s {
        JobStatus::Succeeded => 200,
        JobStatus::Failed => 500,
        JobStatus::Cancelled => 410,
        JobStatus::Running | JobStatus::Queued => 202,
    }
}

/// The tools the job manager knows how to run.
pub open spec fn known_tool(t: Seq<char>) -> bool {
    t == "subfinder-enum"@ || t == "waybackurls-mine"@ || t == "katana-crawl"@ || t
        == "httpx-probe"@ || t == "nuclei-scan"@ || t == "wordpress-nuclei"@ || t == "ffuf-fuzz"@
        || t == "gitleaks-scan"@ || t == "trivy-scan"@ || t == "js-analysis"@ || t
        == "cors-check"@ || t == "wordpress-vuln-scan"@
}

pub fn is_known_tool(tool: &str) -> (b: bool)
    ensures
        b == known_tool(tool@),
{
    str_eq(tool, "subfinder-enum") || str_eq(tool, "waybackurls-mine") || str_eq(
        tool,
        "katana-crawl",
    ) || str_eq(tool, "httpx-probe") || str_eq(tool, "nuclei-scan") || str_eq(
        tool,
        "wordpress-nuclei",
    ) || str_eq(tool, "ffuf-fuzz") || str_eq(tool, "gitleaks-scan") || str_eq(tool, "trivy-scan")
        || str_eq(tool, "js-analysis") || str_eq(tool, "cors-check") || str_eq(
        tool,
        "wordpress-vuln-scan",
    )
}

proof fn catalog_search_finds(id: Seq<char>, from: nat, k: nat)
    requires
        from <= k < CATALOG_LEN,
        catalog_row(k as int).0 == id,
    ensures
        catalog_index_from(id, from) is Some,
    decreases k - from,
{
    if catalog_row(from as int).0 != id {
        catalog_search_finds(id, from + 1, k);
    }
}

/// Every tool the job manager runs has a row, and so a label, in the tool
/// catalog.
pub proof fn known_tools_have_labels(t: Seq<char>)
    requires
        known_tool(t),
    ensures
        tool_label_spec(t) is Some,
{
    let k: nat = if t == "wordpress-nuclei"@ {
        7
    } else if t == "wordpress-vuln-scan"@ {
        8
    } else if t == "httpx-probe"@ {
        9
    } else if t == "nuclei-scan"@ {
        10
    } else if t == "ffuf-fuzz"@ {
        11
    } else if t == "cors-check"@ {
        12
    } else if t == "subfinder-enum"@ {
        15
    } else if t == "waybackurls-mine"@ {
        16
    } else if t == "katana-crawl"@ {
        17
    } else if t == "js-analysis"@ {
        18
    } else if t == "gitleaks-scan"@ {
        19
    } else {
        20
    };
    catalog_search_finds(t, 0, k);
}

/// Distinct job states have distinct names.
pub proof fn job_status_names_distinct(a: JobStatus, b: JobStatus)
    requires
        a != b,
    ensures
        a.name() != b.name(),
{
    reveal_strlit("queued");
    reveal_strlit("running");
    reveal_strlit("succeeded");
    reveal_strlit("failed");
    reveal_strlit("cancelled");
    if a.name() == b.name() {
        assert(a.name().len() == b.name().len());
        assert(a.name()[0] == b.name()[0]);
    }
}

/// `d` left-padded with zeros to `w` characters (`{:0w}`).
pub open spec fn zero_pad(d: Seq<char>, w: nat) -> Seq<char> {
    if d.len() < w {
        Seq::new((w - d.len()) as nat, |i: int| '0') + d
    } else {
        d
    }
}

/// Id of the `n`-th submitted job: `job-` and `n` on at least six digits.
pub open spec fn job_id_spec(n: u64) -> Seq<char> {
    "job-"@ + zero_pad(decimal(n as nat), 6)
}

pub fn job_id(n: u64) -> (r: String)
    ensures
        r@ == job_id_spec(n),
{
    let d = decimal_chars(n);
    let mut out = chars_of("job-");
    let mut k: usize = d.len();
    let ghost start = out@;
    while k < 6
        invariant
            d.len() <= k <= 6 || (d.len() >= 6 && k == d.len()),
            out@ == start + Seq::new((k - d.len()) as nat, |i: int| '0'),
        decreases 6 - k,
    {
        out.push('0');
        assert(out@ =~= start + Seq::new((k + 1 - d.len()) as nat, |i: int| '0'));
        k = k + 1;
    }
    push_all(&mut out, d.as_slice());
    assert(out@ =~= job_id_spec(n));
    string_of(out.as_slice())
}

pub open spec fn params_view(p: Seq<(String, String)>) -> Seq<(Seq<char>, Seq<char>)> {
    p.map_values(|e: (String, String)| (e.0@, e.1@))
}

pub open spec fn strings_view(v: Seq<String>) -> Seq<Seq<char>> {
    v.map_values(|s: String| s@)
}

pub fn clone_params(p: &Vec<(String, String)>) -> (r: Vec<(String, String)>)
    ensures
        params_view(r@) == params_view(p@),
{
    let mut out: Vec<(String, String)> = Vec::new();
    let mut i: usize = 0;
    while i < p.len()
        invariant
            i <= p@.len(),
            params_view(out@) == params_view(p@.take(i as int)),
        decreases p@.len() - i,
    {
        let (k, v) = &p[i];
        let ghost prev = params_view(out@);
        out.push((k.clone(), v.clone()));
        assert(params_view(out@) =~= prev.push((k@, v@)));
        assert(params_view(p@.take(i + 1)) =~= params_view(p@.take(i as int)).push(
            (p@[i as int].0@, p@[i as int].1@),
        ));
        i = i + 1;
    }
    assert(p@.take(p@.len() as int) =~= p@);
    out
}

pub fn clone_strings(v: &Vec<String>) -> (r: Vec<String>)
    ensures
        strings_view(r@) == strings_view(v@),
{
    let mut out: Vec<String> = Vec::new();
    let mut i: usize = 0;
    while i < v.len()
        invariant
            i <= v@.len(),
            strings_view(out@) == strings_view(v@.take(i as int)),
        decreases v@.len() - i,
    {
        let ghost prev = strings_view(out@);
        out.push(v[i].clone());
        assert(strings_view(out@) =~= prev.push(v@[i as int]@));
        assert(strings_view(v@.take(i + 1)) =~= strings_view(v@.take(i as int)).push(
            v@[i as int]@,
        ));
        i = i + 1;
    }
    assert(v@.take(v@.len() as int) =~= v@);
    out
}

/// Value of the first parameter with the given name.
pub open spec fn param_get(p: Seq<(String, String)>, key: Seq<char>) -> Option<Seq<char>>
    decreases p.len(),
{
    if p.len() == 0 {
        None
    } else if p[0].0@ == key {
        Some(p[0].1@)
    } else {
        param_get(p.drop_first(), key)
    }
}

pub fn param_value(p: &Vec<(String, String)>, key: &str) -> (r: Option<String>)
    ensures
        match r {
            Some(v) => param_get(p@, key@) == Some(v@),
            None => param_get(p@, key@) is None,
        },
{
    let mut i: usize = 0;
    assert(p@.skip(0) =~= p@);
    while i < p.len()
        invariant
            i <= p@.len(),
            param_get(p@, key@) == param_get(p@.skip(i as int), key@),
        decreases p@.len() - i,
    {
        assert(p@.skip(i as int).drop_first() =~= p@.skip(i + 1));
        assert(p@.skip(i as int)[0] == p@[i as int]);
        if str_eq(p[i].0.as_str(), key) {
            return Some(p[i].1.clone());
        }
        i = i + 1;
    }
    assert(p@.skip(i as int).len() == 0);
    None
}


// ─── Jobs ───────────────────────────────────────────────────────────────────

/// A background tool run.
pub struct Job<R> {
    pub id: String,
    pub tool: String,
    pub label: String,
    pub params: Vec<(String, String)>,
    pub status: JobStatus,
    /// Start / finish times (milliseconds since the epoch).
    pub started_at: Option<i64>,
    pub finished_at: Option<i64>,
    pub error: Option<String>,
    pub result: Option<R>,
    pub log: Vec<String>,
    pub cancelled: bool,
    pub param_error: bool,
}

/// A job as plain values.
pub struct JobV<R> {
    pub id: Seq<char>,
    pub tool: Seq<char>,
    pub label: Seq<char>,
    pub params: Seq<(Seq<char>, Seq<char>)>,
    pub status: JobStatus,
    pub started_at: Option<i64>,
    pub finished_at: Option<i64>,
    pub error: Option<Seq<char>>,
    pub result: Option<R>,
    pub log: Seq<Seq<char>>,
    pub cancelled: bool,
    pub param_error: bool,
}

pub open spec fn job_v<R>(j: Job<R>) -> JobV<R> {
    JobV {
        id: j.id@,
        tool: j.tool@,
        label: j.label@,
        params: params_view(j.params@),
        status: j.status,
        started_at: j.started_at,
        finished_at: j.finished_at,
        error: ov(j.error),
        result: j.result,
        log: strings_view(j.log@),
        cancelled: j.cancelled,
        param_error: j.param_error,
    }
}

pub open spec fn jobs_v<R>(js: Seq<Job<R>>) -> Seq<JobV<R>> {
    js.map_values(|j: Job<R>| job_v(j))
}

/// What the job list and job endpoints show of a job.
pub struct JobView {
    pub id: String,
    pub tool: String,
    pub label: String,
    pub status: JobStatus,
    pub params: Vec<(String, String)>,
    pub started_at: Option<i64>,
    pub finished_at: Option<i64>,
    pub duration_ms: Option<u64>,
    pub error: Option<String>,
    pub has_result: bool,
    pub has_log: bool,
}

/// Run time in milliseconds, clamped at zero; known once both ends are.
pub open spec fn duration_spec(s: Option<i64>, f: Option<i64>) -> Option<u64> {
    match (s, f) {
        (Some(a), Some(b)) => Some(
            if b - a > 0 {
                (b - a) as u64
            } else {
                0
            },
        ),
        _ => None,
    }
}

pub open spec fn shows<R>(v: JobView, j: JobV<R>) -> bool {
    &&& v.id@ == j.id
    &&& v.tool@ == j.tool
    &&& v.label@ == j.label
    &&& v.status == j.status
    &&& params_view(v.params@) == j.params
    &&& v.started_at == j.started_at
    &&& v.finished_at == j.finished_at
    &&& v.duration_ms == duration_spec(j.started_at, j.finished_at)
    &&& ov(v.error) == j.error
    &&& v.has_result == (j.result is Some)
    &&& v.has_log == (j.log.len() > 0)
}

fn opt_clone(o: &Option<String>) -> (r: Option<String>)
    ensures
        ov(r) == ov(*o),
{
    match o {
        Some(s) => Some(s.clone()),
        None => None,
    }
}

fn duration_ms(s: Option<i64>, f: Option<i64>) -> (r: Option<u64>)
    ensures
        r == duration_spec(s, f),
{
    match (s, f) {
        (Some(a), Some(b)) => {
            let d: i128 = b as i128 - a as i128;
            if d > 0 {
                Some(d as u64)
            } else {
                Some(0)
            }
        },
        _ => None,
    }
}

impl<R> Job<R> {
    pub fn view(&self) -> (v: JobView)
        ensures
            shows(v, job_v(*self)),
    {
        JobView {
            id: self.id.clone(),
            tool: self.tool.clone(),
            label: self.label.clone(),
            status: self.status,
            params: clone_params(&self.params),
            started_at: self.started_at,
            finished_at: self.finished_at,
            duration_ms: duration_ms(self.started_at, self.finished_at),
            error: opt_clone(&self.error),
            has_result: self.result.is_some(),
            has_log: self.log.len() > 0,
        }
    }
}

/// Index of the job with the given id.
pub open spec fn index_of<R>(js: Seq<JobV<R>>, id: Seq<char>) -> Option<int>
    decreases js.len(),
{
    if js.len() == 0 {
        None
    } else if js[0].id == id {
        Some(0)
    } else {
        match index_of(js.drop_first(), id) {
            Some(k) => Some(k + 1),
            None => None,
        }
    }
}

pub proof fn lemma_index_of<R>(js: Seq<JobV<R>>, id: Seq<char>)
    ensures
        match index_of(js, id) {
            Some(k) => 0 <= k < js.len() && js[k].id == id && forall|i: int|
                0 <= i < k ==> (#[trigger] js[i]).id != id,
            None => forall|i: int| 0 <= i < js.len() ==> (#[trigger] js[i]).id != id,
        },
    decreases js.len(),
{
    if js.len() > 0 && js[0].id != id {
        lemma_index_of(js.drop_first(), id);
        match index_of(js.drop_first(), id) {
            Some(k) => {
                assert forall|i: int| 0 <= i < k + 1 implies (#[trigger] js[i]).id != id by {
                    if i > 0 {
                        assert(js[i] == js.drop_first()[i - 1]);
                    }
                }
            },
            None => {
                assert forall|i: int| 0 <= i < js.len() implies (#[trigger] js[i]).id != id by {
                    if i > 0 {
                        assert(js[i] == js.drop_first()[i - 1]);
                    }
                }
            },
        }
    }
}

/// The job state of the whole server.
pub struct JobManager<R> {
    jobs: Vec<Job<R>>,
    next_id: u64,
}

pub open spec fn ids_unique<R>(js: Seq<JobV<R>>) -> bool {
    forall|i: int, j: int| 0 <= i < j < js.len() ==> (#[trigger] js[i]).id != (#[trigger] js[j]).id
}

/// A job's own invariant: it holds a result only once it succeeded, and
/// its log never exceeds the ring size.
pub open spec fn job_ok<R>(j: JobV<R>) -> bool {
    &&& (j.result is Some ==> j.status is Succeeded)
    &&& j.log.len() <= LOG_RING
}

pub open spec fn jobs_ok<R>(js: Seq<JobV<R>>) -> bool {
    &&& ids_unique(js)
    &&& forall|i: int| 0 <= i < js.len() ==> job_ok(#[trigger] js[i])
}

impl<R> JobManager<R> {
    pub closed spec fn jobs(&self) -> Seq<JobV<R>> {
        jobs_v(self.jobs@)
    }

    /// Counter the next job id is made from.
    pub closed spec fn counter(&self) -> u64 {
        self.next_id
    }

    pub open spec fn wf(&self) -> bool {
        jobs_ok(self.jobs())
    }

    pub fn new() -> (m: Self)
        ensures
            m.wf(),
            m.jobs() == Seq::<JobV<R>>::empty(),
            m.counter() == 1,
    {
        let m = JobManager { jobs: Vec::new(), next_id: 1 };
        assert(m.jobs() =~= Seq::<JobV<R>>::empty());
        m
    }

    fn find(&self, id: &str) -> (r: Option<usize>)
        ensures
            match r {
                Some(k) => index_of(self.jobs(), id@) == Some(k as int),
                None => index_of(self.jobs(), id@) is None,
            },
    {
        let ghost js = self.jobs();
        let mut i: usize = 0;
        assert(js.skip(0) =~= js);
        while i < self.jobs.len()
            invariant
                i <= self.jobs@.len(),
                js == self.jobs(),
                js == jobs_v(self.jobs@),
                match index_of(js, id@) {
                    Some(k) => match index_of(js.skip(i as int), id@) {
                        Some(k2) => k == k2 + i,
                        None => false,
                    },
                    None => index_of(js.skip(i as int), id@) is None,
                },
            decreases self.jobs@.len() - i,
        {
            assert(js.skip(i as int).drop_first() =~= js.skip(i + 1));
            assert(js.skip(i as int)[0] == job_v(self.jobs@[i as int]));
            if str_eq(self.jobs[i].id.as_str(), id) {
                return Some(i);
            }
            i = i + 1;
        }
        assert(js.skip(i as int).len() == 0);
        None
    }

    /// The view of the job with this id.
    pub fn get(&self, id: &str) -> (r: Option<JobView>)
        ensures
            match index_of(self.jobs(), id@) {
                Some(k) => r matches Some(v) && shows(v, self.jobs()[k]),
                None => r is None,
            },
    {
        proof {
            lemma_index_of(self.jobs(), id@);
        }
        match self.find(id) {
            Some(k) => Some(self.jobs[k].view()),
            None => None,
        }
    }

    /// Status, result and error of the job with this id.
    pub fn result(&self, id: &str) -> (r: Option<(JobStatus, Option<&R>, Option<String>)>)
        ensures
            match index_of(self.jobs(), id@) {
                Some(k) => r matches Some(t) && t.0 == self.jobs()[k].status && match t.1 {
                    Some(x) => self.jobs()[k].result == Some(*x),
                    None => self.jobs()[k].result is None,
                } && ov(t.2) == self.jobs()[k].error,
                None => r is None,
            },
    {
        proof {
            lemma_index_of(self.jobs(), id@);
        }
        match self.find(id) {
            Some(k) => {
                let j = &self.jobs[k];
                let res = match &j.result {
                    Some(x) => Some(x),
                    None => None,
                };
                Some((j.status, res, opt_clone(&j.error)))
            },
            None => None,
        }
    }

    /// The log lines kept for the job with this id.
    pub fn logs(&self, id: &str) -> (r: Option<Vec<String>>)
        ensures
            match index_of(self.jobs(), id@) {
                Some(k) => r matches Some(l) && strings_view(l@) == self.jobs()[k].log,
                None => r is None,
            },
    {
        proof {
            lemma_index_of(self.jobs(), id@);
        }
        match self.find(id) {
            Some(k) => Some(clone_strings(&self.jobs[k].log)),
            None => None,
        }
    }
}


// ─── Log ring ───────────────────────────────────────────────────────────────

/// The log after appending `line`: the oldest lines are dropped so that at
/// most `LOG_RING` remain.
pub open spec fn ring_push(log: Seq<Seq<char>>, line: Seq<char>) -> Seq<Seq<char>> {
    let p = log.push(line);
    if p.len() > LOG_RING {
        p.skip(p.len() - LOG_RING)
    } else {
        p
    }
}

pub fn push_log_line(log: &mut Vec<String>, line: String)
    ensures
        strings_view(final(log)@) == ring_push(strings_view(old(log)@), line@),
{
    let ghost p = strings_view(old(log)@).push(line@);
    let ghost prev = strings_view(log@);
    log.push(line);
    assert(strings_view(log@) =~= prev.push(line@));
    let ghost mut dropped: int = 0;
    while log.len() > LOG_RING
        invariant
            0 <= dropped <= p.len(),
            strings_view(log@) == p.skip(dropped),
            dropped > 0 ==> p.len() - dropped >= LOG_RING,
        decreases log@.len(),
    {
        let ghost before = strings_view(log@);
        let _ = log.remove(0);
        assert(strings_view(log@) =~= before.drop_first());
        assert(p.skip(dropped).drop_first() =~= p.skip(dropped + 1));
        proof {
            dropped = dropped + 1;
        }
    }
    proof {
        if p.len() > LOG_RING {
            assert(dropped == p.len() - LOG_RING);
        } else {
            assert(dropped == 0);
            assert(p.skip(0) =~= p);
        }
    }
}

impl<R> JobManager<R> {
    fn take_job(&mut self, k: usize) -> (j: Job<R>)
        requires
            k < old(self).jobs@.len(),
        ensures
            final(self).jobs@ == old(self).jobs@.remove(k as int),
            final(self).next_id == old(self).next_id,
            j == old(self).jobs@[k as int],
    {
        self.jobs.remove(k)
    }

    fn put_job(&mut self, k: usize, j: Job<R>)
        requires
            k <= old(self).jobs@.len(),
        ensures
            final(self).jobs@ == old(self).jobs@.insert(k as int, j),
            final(self).next_id == old(self).next_id,
    {
        self.jobs.insert(k, j);
    }

    proof fn lemma_update_keeps_ok(js: Seq<JobV<R>>, k: int, j: JobV<R>)
        requires
            jobs_ok(js),
            0 <= k < js.len(),
            j.id == js[k].id,
            job_ok(j),
        ensures
            jobs_ok(js.update(k, j)),
    {
        let u = js.update(k, j);
        assert forall|a: int, b: int| 0 <= a < b < u.len() implies (#[trigger] u[a]).id != (
        #[trigger] u[b]).id by {
            assert(js[a].id != js[b].id);
        }
    }

    /// Appends a line to the job's log (the ring keeps the newest lines).
    pub fn append_log(&mut self, id: &str, line: &str) -> (found: bool)
        requires
            old(self).wf(),
        ensures
            final(self).wf(),
            final(self).counter() == old(self).counter(),
            match index_of(old(self).jobs(), id@) {
                Some(k) => found && final(self).jobs() == old(self).jobs().update(
                    k,
                    JobV { log: ring_push(old(self).jobs()[k].log, line@), ..old(self).jobs()[k] },
                ),
                None => !found && final(self).jobs() == old(self).jobs(),
            },
    {
        proof {
            lemma_index_of(self.jobs(), id@);
        }
        match self.find(id) {
            Some(k) => {
                let ghost js = self.jobs();
                let mut j = self.take_job(k);
                push_log_line(&mut j.log, lit(line));
                self.put_job(k, j);
                proof {
                    assert(self.jobs@ =~= old(self).jobs@.update(k as int, j));
                    assert(self.jobs() =~= js.update(
                        k as int,
                        JobV { log: ring_push(js[k as int].log, line@), ..js[k as int] },
                    ));
                    Self::lemma_update_keeps_ok(
                        js,
                        k as int,
                        JobV { log: ring_push(js[k as int].log, line@), ..js[k as int] },
                    );
                }
                true
            },
            None => false,
        }
    }

    /// Marks a queued job as running from `now`.
    pub fn mark_started(&mut self, id: &str, now: i64) -> (found: bool)
        requires
            old(self).wf(),
            match index_of(old(self).jobs(), id@) {
                Some(k) => old(self).jobs()[k].status is Queued,
                None => true,
            },
        ensures
            final(self).wf(),
            final(self).counter() == old(self).counter(),
            match index_of(old(self).jobs(), id@) {
                Some(k) => found && final(self).jobs() == old(self).jobs().update(
                    k,
                    JobV {
                        status: JobStatus::Running,
                        started_at: Some(now),
                        ..old(self).jobs()[k]
                    },
                ),
                None => !found && final(self).jobs() == old(self).jobs(),
            },
    {
        proof {
            lemma_index_of(self.jobs(), id@);
        }
        match self.find(id) {
            Some(k) => {
                let ghost js = self.jobs();
                let mut j = self.take_job(k);
                j.status = JobStatus::Running;
                j.started_at = Some(now);
                self.put_job(k, j);
                proof {
                    assert(self.jobs@ =~= old(self).jobs@.update(k as int, j));
                    let nj = JobV {
                        status: JobStatus::Running,
                        started_at: Some(now),
                        ..js[k as int]
                    };
                    assert(self.jobs() =~= js.update(k as int, nj));
                    Self::lemma_update_keeps_ok(js, k as int, nj);
                }
                true
            },
            None => false,
        }
    }

    /// Flags the job for cancellation; `Some(running)` says whether it was
    /// running (the caller then reports "Cancelling…").
    pub fn cancel(&mut self, id: &str) -> (r: Option<bool>)
        requires
            old(self).wf(),
        ensures
            final(self).wf(),
            final(self).counter() == old(self).counter(),
            match index_of(old(self).jobs(), id@) {
                Some(k) => r == Some(old(self).jobs()[k].status is Running) && final(self).jobs()
                    == old(self).jobs().update(k, JobV { cancelled: true, ..old(self).jobs()[k] }),
                None => r is None && final(self).jobs() == old(self).jobs(),
            },
    {
        proof {
            lemma_index_of(self.jobs(), id@);
        }
        match self.find(id) {
            Some(k) => {
                let ghost js = self.jobs();
                let mut j = self.take_job(k);
                j.cancelled = true;
                let running = j.status == JobStatus::Running;
                self.put_job(k, j);
                proof {
                    assert(self.jobs@ =~= old(self).jobs@.update(k as int, j));
                    let nj = JobV { cancelled: true, ..js[k as int] };
                    assert(self.jobs() =~= js.update(k as int, nj));
                    Self::lemma_update_keeps_ok(js, k as int, nj);
                }
                Some(running)
            },
            None => None,
        }
    }
}


// ─── Finishing, eviction, submission, listing ──────────────────────────────

/// The job after its run ended with `outcome` at `now`: a success on a job
/// flagged for cancellation counts as cancelled; a failure records its
/// message (also in the log) and whether it was a parameter error.
pub open spec fn finished_job<R>(
    j: JobV<R>,
    now: i64,
    outcome: Result<R, (bool, bool, String)>,
) -> JobV<R> {
    let base = JobV { finished_at: Some(now), ..j };
    if j.cancelled && outcome is Ok {
        JobV { status: JobStatus::Cancelled, ..base }
    } else {
        match outcome {
            Ok(v) => JobV { result: Some(v), status: JobStatus::Succeeded, ..base },
            Err(e) => if e.1 {
                JobV { status: JobStatus::Cancelled, ..base }
            } else {
                JobV {
                    param_error: e.0,
                    error: Some(e.2@),
                    status: JobStatus::Failed,
                    log: ring_push(j.log, "Failed: "@ + e.2@),
                    ..base
                }
            },
        }
    }
}

/// A job survives eviction unless it finished more than `EVICT_AFTER_MS` ago.
pub open spec fn keep_job<R>(j: JobV<R>, now: i64) -> bool {
    !j.status.is_terminal() || match j.finished_at {
        Some(t) => t > now - EVICT_AFTER_MS,
        None => true,
    }
}

pub open spec fn kept<R>(js: Seq<JobV<R>>, now: i64) -> Seq<JobV<R>>
    decreases js.len(),
{
    if js.len() == 0 {
        seq![]
    } else {
        let p = kept(js.drop_last(), now);
        if keep_job(js.last(), now) {
            p.push(js.last())
        } else {
            p
        }
    }
}

pub proof fn lemma_kept_ok<R>(js: Seq<JobV<R>>, now: i64)
    requires
        jobs_ok(js),
    ensures
        jobs_ok(kept(js, now)),
        forall|x: JobV<R>| kept(js, now).contains(x) ==> js.contains(x),
    decreases js.len(),
{
    if js.len() > 0 {
        let init = js.drop_last();
        assert(jobs_ok(init)) by {
            assert forall|a: int, b: int| 0 <= a < b < init.len() implies (#[trigger] init[a]).id
                != (#[trigger] init[b]).id by {
                assert(init[a] == js[a] && init[b] == js[b]);
            }
            assert forall|i: int| 0 <= i < init.len() implies job_ok(#[trigger] init[i]) by {
                assert(init[i] == js[i]);
            }
        }
        lemma_kept_ok(init, now);
        let p = kept(init, now);
        assert forall|x: JobV<R>| kept(js, now).contains(x) implies js.contains(x) by {
            if p.contains(x) {
                assert(init.contains(x));
                let i = choose|i: int| 0 <= i < init.len() && init[i] == x;
                assert(js[i] == x);
            } else {
                assert(keep_job(js.last(), now));
                assert(kept(js, now) == p.push(js.last()));
                let i = choose|i: int| 0 <= i < kept(js, now).len() && kept(js, now)[i] == x;
                if i < p.len() {
                    assert(p[i] == x);
                    assert(p.contains(x));
                }
                assert(js[js.len() - 1] == x);
            }
        }
        if keep_job(js.last(), now) {
            let q = p.push(js.last());
            assert forall|a: int, b: int| 0 <= a < b < q.len() implies (#[trigger] q[a]).id != (
            #[trigger] q[b]).id by {
                if b == q.len() - 1 {
                    assert(q[a] == p[a]);
                    assert(p.contains(q[a]));
                    assert(init.contains(q[a]));
                    let i = choose|i: int| 0 <= i < init.len() && init[i] == q[a];
                    assert(js[i] == q[a]);
                    assert(js[i].id != js[js.len() - 1].id);
                } else {
                    assert(q[a] == p[a] && q[b] == p[b]);
                }
            }
            assert forall|i: int| 0 <= i < q.len() implies job_ok(#[trigger] q[i]) by {
                if i == q.len() - 1 {
                    assert(js[js.len() - 1] == q[i]);
                } else {
                    assert(q[i] == p[i]);
                }
            }
        }
    }
}

pub open spec fn new_job<R>(
    id: Seq<char>,
    tool: Seq<char>,
    label: Seq<char>,
    params: Seq<(Seq<char>, Seq<char>)>,
) -> JobV<R> {
    JobV {
        id,
        tool,
        label,
        params,
        status: JobStatus::Queued,
        started_at: None,
        finished_at: None,
        error: None,
        result: None,
        log: seq![],
        cancelled: false,
        param_error: false,
    }
}

/// Stores a job under its id, replacing a job with the same id.
pub open spec fn put<R>(js: Seq<JobV<R>>, j: JobV<R>) -> Seq<JobV<R>> {
    match index_of(js, j.id) {
        Some(k) => js.update(k, j),
        None => js.push(j),
    }
}

/// Display label of a tool: its catalog label, else its id.
pub open spec fn label_of(tool: Seq<char>) -> Seq<char> {
    match tool_label_spec(tool) {
        Some(l) => l,
        None => tool,
    }
}

/// The id counter after one use (it wraps like an atomic add).
pub open spec fn next_counter(n: u64) -> u64 {
    if n == u64::MAX {
        0
    } else {
        (n + 1) as u64
    }
}

/// `a` started strictly later than `b` (a missing start counts as earliest).
pub open spec fn started_after(a: Option<i64>, b: Option<i64>) -> bool {
    match (a, b) {
        (Some(x), Some(y)) => x > y,
        (Some(_), None) => true,
        _ => false,
    }
}

pub open spec fn list_pos<R>(t: Seq<JobV<R>>, x: JobV<R>) -> int
    decreases t.len(),
{
    if t.len() == 0 {
        0
    } else if started_after(x.started_at, t[0].started_at) {
        0
    } else {
        1 + list_pos(t.drop_first(), x)
    }
}

/// Jobs newest-started first; jobs that started together keep their order.
pub open spec fn by_start<R>(js: Seq<JobV<R>>) -> Seq<JobV<R>>
    decreases js.len(),
{
    if js.len() == 0 {
        seq![]
    } else {
        let t = by_start(js.drop_last());
        t.insert(list_pos(t, js.last()), js.last())
    }
}

pub proof fn lemma_list_pos<R>(t: Seq<JobV<R>>, x: JobV<R>)
    ensures
        0 <= list_pos(t, x) <= t.len(),
    decreases t.len(),
{
    if t.len() > 0 {
        lemma_list_pos(t.drop_first(), x);
    }
}

pub proof fn lemma_by_start_len<R>(js: Seq<JobV<R>>)
    ensures
        by_start(js).len() == js.len(),
    decreases js.len(),
{
    if js.len() > 0 {
        lemma_by_start_len(js.drop_last());
        lemma_list_pos(by_start(js.drop_last()), js.last());
    }
}

fn started_after_exec(a: Option<i64>, b: Option<i64>) -> (r: bool)
    ensures
        r == started_after(a, b),
{
    match (a, b) {
        (Some(x), Some(y)) => x > y,
        (Some(_), None) => true,
        _ => false,
    }
}

fn cutoff_passed(t: i64, now: i64) -> (r: bool)
    ensures
        r == (t > now - EVICT_AFTER_MS),
{
    (t as i128) > (now as i128) - (EVICT_AFTER_MS as i128)
}

impl<R> JobManager<R> {
    /// Records how the job's run ended (only a queued or running job ends).
    pub fn finish(&mut self, id: &str, now: i64, outcome: Result<R, (bool, bool, String)>) -> (r:
        Option<JobStatus>)
        requires
            old(self).wf(),
            match index_of(old(self).jobs(), id@) {
                Some(k) => !old(self).jobs()[k].status.is_terminal(),
                None => true,
            },
        ensures
            final(self).wf(),
            final(self).counter() == old(self).counter(),
            match index_of(old(self).jobs(), id@) {
                Some(k) => {
                    let nj = finished_job(old(self).jobs()[k], now, outcome);
                    &&& r == Some(nj.status)
                    &&& final(self).jobs() == old(self).jobs().update(k, nj)
                },
                None => r is None && final(self).jobs() == old(self).jobs(),
            },
    {
        proof {
            lemma_index_of(self.jobs(), id@);
        }
        match self.find(id) {
            Some(k) => {
                let ghost js = self.jobs();
                let ghost nj = finished_job(js[k as int], now, outcome);
                let mut j = self.take_job(k);
                j.finished_at = Some(now);
                let cancelled = j.cancelled;
                match outcome {
                    Ok(v) => {
                        if cancelled {
                            j.status = JobStatus::Cancelled;
                        } else {
                            j.result = Some(v);
                            j.status = JobStatus::Succeeded;
                        }
                    },
                    Err((param, was_cancelled, msg)) => {
                        if was_cancelled {
                            j.status = JobStatus::Cancelled;
                        } else {
                            let mut line = chars_of("Failed: ");
                            push_all(&mut line, chars_of(msg.as_str()).as_slice());
                            j.param_error = param;
                            j.error = Some(msg);
                            j.status = JobStatus::Failed;
                            push_log_line(&mut j.log, string_of(line.as_slice()));
                        }
                    },
                }
                let st = j.status;
                self.put_job(k, j);
                proof {
                    assert(self.jobs@ =~= old(self).jobs@.update(k as int, j));
                    assert(job_v(j) == nj);
                    assert(self.jobs() =~= js.update(k as int, nj));
                    Self::lemma_update_keeps_ok(js, k as int, nj);
                }
                Some(st)
            },
            None => None,
        }
    }

    /// Drops jobs that finished more than `EVICT_AFTER_MS` before `now`.
    pub fn evict_finished(&mut self, now: i64)
        requires
            old(self).wf(),
        ensures
            final(self).wf(),
            final(self).counter() == old(self).counter(),
            final(self).jobs() == kept(old(self).jobs(), now),
    {
        let ghost js = self.jobs();
        let mut old_jobs: Vec<Job<R>> = Vec::new();
        std::mem::swap(&mut old_jobs, &mut self.jobs);
        let ghost src = old_jobs@;
        let n = old_jobs.len();
        assert(jobs_v(src) == js);
        let mut i: usize = 0;
        assert(jobs_v(self.jobs@) =~= kept(js.take(0), now));
        assert(old_jobs@ =~= src.skip(0));
        while old_jobs.len() > 0
            invariant
                i <= src.len(),
                src.len() == n,
                old_jobs@ == src.skip(i as int),
                js == jobs_v(src),
                jobs_v(self.jobs@) == kept(js.take(i as int), now),
                self.next_id == old(self).next_id,
            decreases old_jobs@.len(),
        {
            let j = old_jobs.remove(0);
            assert(src.skip(i as int).drop_first() =~= src.skip(i + 1));
            assert(j == src[i as int]);
            assert(js.take(i + 1).drop_last() =~= js.take(i as int));
            assert(js.take(i + 1).last() == job_v(j));
            let keep = !j.status.terminal() || match j.finished_at {
                Some(t) => cutoff_passed(t, now),
                None => true,
            };
            if keep {
                let ghost prev = jobs_v(self.jobs@);
                self.jobs.push(j);
                assert(jobs_v(self.jobs@) =~= prev.push(job_v(j)));
            }
            i = i + 1;
        }
        assert(js.take(i as int) =~= js);
        proof {
            lemma_kept_ok(js, now);
        }
    }

    /// Creates a queued job for `tool`: unknown tools are refused with 400;
    /// otherwise old finished jobs are evicted first and the new job gets
    /// the next id.
    pub fn submit(&mut self, tool: &str, params: Vec<(String, String)>, now: i64) -> (r: Result<
        JobView,
        (u16, String),
    >)
        requires
            old(self).wf(),
        ensures
            final(self).wf(),
            !known_tool(tool@) ==> (r matches Err(e) && e.0 == 400 && e.1@ == "Unknown tool: "@
                + tool@ && final(self).jobs() == old(self).jobs() && final(self).counter() == old(
                self,
            ).counter()),
            known_tool(tool@) ==> {
                let nj = new_job::<R>(
                    job_id_spec(old(self).counter()),
                    tool@,
                    label_of(tool@),
                    params_view(params@),
                );
                &&& (r matches Ok(v) && shows(v, nj))
                &&& final(self).jobs() == put(kept(old(self).jobs(), now), nj)
                &&& final(self).counter() == next_counter(old(self).counter())
            },
    {
        let label = match tool_label(tool) {
            Some(l) => lit(l),
            None => lit(tool),
        };
        if !is_known_tool(tool) {
            let mut m = chars_of("Unknown tool: ");
            push_str(&mut m, tool);
            return Err((400, string_of(m.as_slice())));
        }
        self.evict_finished(now);
        let id = job_id(self.next_id);
        self.next_id = if self.next_id == u64::MAX {
            0
        } else {
            self.next_id + 1
        };
        let job = Job {
            id,
            tool: lit(tool),
            label,
            params,
            status: JobStatus::Queued,
            started_at: None,
            finished_at: None,
            error: None,
            result: None,
            log: Vec::new(),
            cancelled: false,
            param_error: false,
        };
        let view = job.view();
        let ghost js = self.jobs();
        let ghost before = self.jobs@;
        let ghost nj = job_v(job);
        assert(nj.log =~= Seq::<Seq<char>>::empty());
        proof {
            lemma_index_of(js, nj.id);
        }
        match self.find(job.id.as_str()) {
            Some(k) => {
                let _ = self.take_job(k);
                self.put_job(k, job);
                proof {
                    assert(self.jobs@ =~= before.update(k as int, job));
                    assert(self.jobs() =~= js.update(k as int, nj));
                    Self::lemma_update_keeps_ok(js, k as int, nj);
                }
            },
            None => {
                self.jobs.push(job);
                proof {
                    assert(self.jobs() =~= js.push(nj));
                    let q = js.push(nj);
                    assert forall|a: int, b: int| 0 <= a < b < q.len() implies (
                    #[trigger] q[a]).id != (#[trigger] q[b]).id by {
                        if b < js.len() {
                            assert(q[a] == js[a] && q[b] == js[b]);
                        } else {
                            assert(q[a] == js[a]);
                        }
                    }
                    assert forall|i: int| 0 <= i < q.len() implies job_ok(#[trigger] q[i]) by {
                        if i < js.len() {
                            assert(q[i] == js[i]);
                        }
                    }
                }
            },
        }
        Ok(view)
    }

    /// Evicts old finished jobs, then lists the rest newest-started first.
    pub fn list(&mut self, now: i64) -> (r: Vec<JobView>)
        requires
            old(self).wf(),
        ensures
            final(self).wf(),
            final(self).counter() == old(self).counter(),
            final(self).jobs() == kept(old(self).jobs(), now),
            r@.len() == final(self).jobs().len(),
            forall|i: int|
                0 <= i < r@.len() ==> shows(#[trigger] r@[i], by_start(final(self).jobs())[i]),
    {
        self.evict_finished(now);
        let ghost js = self.jobs();
        let mut out: Vec<JobView> = Vec::new();
        let ghost mut order: Seq<JobV<R>> = seq![];
        let mut k: usize = 0;
        while k < self.jobs.len()
            invariant
                k <= self.jobs@.len(),
                js == self.jobs(),
                js == jobs_v(self.jobs@),
                order == by_start(js.take(k as int)),
                out@.len() == order.len(),
                forall|i: int| 0 <= i < out@.len() ==> shows(#[trigger] out@[i], order[i]),
            decreases self.jobs@.len() - k,
        {
            assert(js.take(k + 1).drop_last() =~= js.take(k as int));
            let x = &self.jobs[k];
            let ghost xv = job_v(*x);
            assert(js.take(k + 1).last() == xv);
            proof {
                lemma_list_pos(order, xv);
            }
            let mut pos: usize = 0;
            assert(order.skip(0) =~= order);
            while pos < out.len() && !started_after_exec(x.started_at, out[pos].started_at)
                invariant
                    pos <= out@.len(),
                    out@.len() == order.len(),
                    forall|i: int| 0 <= i < out@.len() ==> shows(#[trigger] out@[i], order[i]),
                    list_pos(order, xv) == pos + list_pos(order.skip(pos as int), xv),
                    xv == job_v(*x),
                decreases out@.len() - pos,
            {
                assert(shows(out@[pos as int], order[pos as int]));
                assert(order.skip(pos as int)[0] == order[pos as int]);
                assert(order.skip(pos as int).drop_first() =~= order.skip(pos + 1));
                pos = pos + 1;
            }
            proof {
                if pos < out@.len() {
                    assert(shows(out@[pos as int], order[pos as int]));
                    assert(order.skip(pos as int)[0] == order[pos as int]);
                }
            }
            let v = x.view();
            let ghost old_out = out@;
            out.insert(pos, v);
            proof {
                let new_order = order.insert(pos as int, xv);
                assert(new_order == by_start(js.take(k + 1)));
                assert forall|i: int| 0 <= i < out@.len() implies shows(
                    #[trigger] out@[i],
                    new_order[i],
                ) by {
                    if i < pos {
                        assert(out@[i] == old_out[i]);
                    } else if i > pos {
                        assert(out@[i] == old_out[i - 1]);
                        assert(new_order[i] == order[i - 1]);
                    }
                }
                order = new_order;
            }
            k = k + 1;
        }
        assert(js.take(k as int) =~= js);
        proof {
            lemma_by_start_len(js);
        }
        out
    }
}


// ─── Answers derived from a job's state ────────────────────────────────────

/// Error answer of the result endpoint for a job without a result.
pub fn result_error(status: JobStatus, err: Option<String>) -> (r: (u16, String))
    ensures
        r.0 == status_code_spec(status),
        r.1@ == match err {
            Some(e) => e@,
            None => "Job not finished ("@ + status.name() + ")"@,
        },
{
    let msg = match err {
        Some(e) => e,
        None => {
            let mut m = chars_of("Job not finished (");
            push_str(&mut m, status.as_str());
            push_str(&mut m, ")");
            string_of(m.as_slice())
        },
    };
    (status_code(status), msg)
}

/// One poll of a synchronous run: done, failed with an HTTP answer, or wait.
pub enum SyncStep {
    Done,
    Fail { code: u16, message: String },
    Wait,
}

/// Decides a synchronous run's poll from the job's (status, has result,
/// error), `None` when the job is gone.
pub fn sync_step(found: Option<(JobStatus, bool, Option<String>)>) -> (r: SyncStep)
    ensures
        match found {
            None => r matches SyncStep::Fail { code, message } && code == 404 && message@
                == "Job vanished"@,
            Some(t) => if t.0 is Succeeded && t.1 {
                r is Done
            } else if t.0.is_terminal() {
                r matches SyncStep::Fail { code, message } && code == status_code_spec(t.0)
                    && message@ == match t.2 {
                    Some(e) => e@,
                    None => "Job failed ("@ + t.0.name() + ")"@,
                }
            } else {
                r is Wait
            },
        },
{
    match found {
        None => SyncStep::Fail { code: 404, message: lit("Job vanished") },
        Some((status, has_value, err)) => {
            if status == JobStatus::Succeeded && has_value {
                SyncStep::Done
            } else if status.terminal() {
                let message = match err {
                    Some(e) => e,
                    None => {
                        let mut m = chars_of("Job failed (");
                        push_str(&mut m, status.as_str());
                        push_str(&mut m, ")");
                        string_of(m.as_slice())
                    },
                };
                SyncStep::Fail { code: status_code(status), message }
            } else {
                SyncStep::Wait
            }
        },
    }
}

/// How a job-backed tool runs: a CLI binary under a timeout, or a builtin
/// announced by a first log line.
pub enum Runner {
    Cli { binary: &'static str, timeout_secs: u64 },
    Builtin { intro: &'static str },
}

pub open spec fn cli_runner(tool: Seq<char>) -> Option<(Seq<char>, u64)> {
    if tool == "subfinder-enum"@ {
        Some(("subfinder"@, 120))
    } else if tool == "waybackurls-mine"@ {
        Some(("waybackurls"@, 120))
    } else if tool == "katana-crawl"@ {
        Some(("katana"@, 150))
    } else if tool == "httpx-probe"@ {
        Some(("httpx"@, 60))
    } else if tool == "nuclei-scan"@ {
        Some(("nuclei"@, 120))
    } else if tool == "wordpress-nuclei"@ {
        Some(("nuclei"@, 150))
    } else if tool == "ffuf-fuzz"@ {
        Some(("ffuf"@, 120))
    } else if tool == "gitleaks-scan"@ {
        Some(("gitleaks"@, 120))
    } else if tool == "trivy-scan"@ {
        Some(("trivy"@, 180))
    } else {
        None
    }
}

pub open spec fn builtin_intro(tool: Seq<char>) -> Option<Seq<char>> {
    if tool == "js-analysis"@ {
        Some("Running JS analysis…"@)
    } else if tool == "cors-check"@ {
        Some("Running CORS probes…"@)
    } else if tool == "wordpress-vuln-scan"@ {
        Some("Running Wordfence vulnerability scan…"@)
    } else {
        None
    }
}

/// The runner of a tool; `None` for a tool the executor does not know.
pub fn runner_for(tool: &str) -> (r: Option<Runner>)
    ensures
        match r {
            Some(Runner::Cli { binary, timeout_secs }) => cli_runner(tool@) == Some(
                (binary@, timeout_secs),
            ),
            Some(Runner::Builtin { intro }) => cli_runner(tool@) is None && builtin_intro(tool@)
                == Some(intro@),
            None => cli_runner(tool@) is None && builtin_intro(tool@) is None,
        },
{
    if str_eq(tool, "subfinder-enum") {
        Some(Runner::Cli { binary: "subfinder", timeout_secs: 120 })
    } else if str_eq(tool, "waybackurls-mine") {
        Some(Runner::Cli { binary: "waybackurls", timeout_secs: 120 })
    } else if str_eq(tool, "katana-crawl") {
        Some(Runner::Cli { binary: "katana", timeout_secs: 150 })
    } else if str_eq(tool, "httpx-probe") {
        Some(Runner::Cli { binary: "httpx", timeout_secs: 60 })
    } else if str_eq(tool, "nuclei-scan") {
        Some(Runner::Cli { binary: "nuclei", timeout_secs: 120 })
    } else if str_eq(tool, "wordpress-nuclei") {
        Some(Runner::Cli { binary: "nuclei", timeout_secs: 150 })
    } else if str_eq(tool, "ffuf-fuzz") {
        Some(Runner::Cli { binary: "ffuf", timeout_secs: 120 })
    } else if str_eq(tool, "gitleaks-scan") {
        Some(Runner::Cli { binary: "gitleaks", timeout_secs: 120 })
    } else if str_eq(tool, "trivy-scan") {
        Some(Runner::Cli { binary: "trivy", timeout_secs: 180 })
    } else if str_eq(tool, "js-analysis") {
        Some(Runner::Builtin { intro: "Running JS analysis…" })
    } else if str_eq(tool, "cors-check") {
        Some(Runner::Builtin { intro: "Running CORS probes…" })
    } else if str_eq(tool, "wordpress-vuln-scan") {
        Some(Runner::Builtin { intro: "Running Wordfence vulnerability scan…" })
    } else {
        None
    }
}

/// Outcome of a builtin whose core answered with an HTTP error: a 400 is a
/// parameter error; none is a cancellation.
pub fn builtin_failure(code: u16, msg: String) -> (r: (bool, bool, String))
    ensures
        r.0 == (code == 400),
        !r.1,
        r.2@ == msg@,
{
    (code == 400, false, msg)
}

/// Failure outcome for a tool the executor cannot run.
pub fn unknown_tool_failure(tool: &str) -> (r: (bool, bool, String))
    ensures
        r.0,
        !r.1,
        r.2@ == "Unknown tool: "@ + tool@,
{
    let mut m = chars_of("Unknown tool: ");
    push_str(&mut m, tool);
    (true, false, string_of(m.as_slice()))
}

/// A job submission: the tool and its parameters.
pub struct CreateJobRequest {
    pub tool: String,
    pub params: Vec<(String, String)>,
}

/// What a CLI job ends with once its run is over: cancelled (by the run or
/// the job's flag), else what reading its output gave (a failure to read
/// it is an execution error, not a parameter one).
pub fn cli_outcome<V>(run_cancelled: bool, job_cancelled: bool, parsed: Result<V, String>) -> (r: Result<
    V,
    (bool, bool, String),
>)
    ensures
        (run_cancelled || job_cancelled) ==> (r matches Err((p, c, m)) && !p && c && m@ == "Cancelled"@),
        !(run_cancelled || job_cancelled) ==> match parsed {
            Ok(v) => r == Ok::<V, (bool, bool, String)>(v),
            Err(e) => r matches Err((p, c, m)) && !p && !c && m@ == e@,
        },
{
    if run_cancelled || job_cancelled {
        return Err((false, true, lit("Cancelled")));
    }
    match parsed {
        Ok(v) => Ok(v),
        Err(e) => Err((false, false, e)),
    }
}

/// The command echoed into a CLI job's log: `$ binary arg1 arg2 …`.
pub fn command_line(binary: &str, args: &Vec<String>) -> (r: String)
    ensures
        r@ == "$ "@ + binary@ + " "@ + crate::text::join(strings_view(args@), " "@),
{
    let mut pieces: Vec<Vec<char>> = Vec::new();
    let mut i: usize = 0;
    while i < args.len()
        invariant
            i <= args@.len(),
            crate::text::seqs_view(pieces@) == strings_view(args@.take(i as int)),
        decreases args@.len() - i,
    {
        let ghost prev = crate::text::seqs_view(pieces@);
        pieces.push(chars_of(args[i].as_str()));
        assert(crate::text::seqs_view(pieces@) =~= prev.push(args@[i as int]@));
        assert(strings_view(args@.take(i + 1)) =~= strings_view(args@.take(i as int)).push(
            args@[i as int]@,
        ));
        i = i + 1;
    }
    assert(args@.take(args@.len() as int) =~= args@);
    let mut out = chars_of("$ ");
    push_str(&mut out, binary);
    push_str(&mut out, " ");
    push_all(&mut out, crate::text::join_chars(&pieces, " ").as_slice());
    string_of(out.as_slice())
}

/// The kinds of job events, and their names on the event stream.
pub enum JobEventKind {
    Created,
    Started,
    Progress,
    Log,
    Completed,
    Failed,
    Cancelled,
}

pub fn sse_name(k: &JobEventKind) -> (r: &'static str)
    ensures
        r@ == match k {
            JobEventKind::Created => "job.created"@,
            JobEventKind::Started => "job.started"@,
            JobEventKind::Progress => "job.progress"@,
            JobEventKind::Log => "job.log"@,
            JobEventKind::Completed => "job.completed"@,
            JobEventKind::Failed => "job.failed"@,
            JobEventKind::Cancelled => "job.cancelled"@,
        },
{
    match k {
        JobEventKind::Created => "job.created",
        JobEventKind::Started => "job.started",
        JobEventKind::Progress => "job.progress",
        JobEventKind::Log => "job.log",
        JobEventKind::Completed => "job.completed",
        JobEventKind::Failed => "job.failed",
        JobEventKind::Cancelled => "job.cancelled",
    }
}

/// Event announcing how a job ended, by its final status.
pub fn end_event(s: JobStatus) -> (k: JobEventKind)
    ensures
        s is Succeeded ==> k is Completed,
        s is Cancelled ==> k is Cancelled,
        !(s is Succeeded) && !(s is Cancelled) ==> k is Failed,
{
    match s {
        JobStatus::Succeeded => JobEventKind::Completed,
        JobStatus::Cancelled => JobEventKind::Cancelled,
        _ => JobEventKind::Failed,
    }
}

// ─── Laws ───────────────────────────────────────────────────────────────────

/// A job holds a result only once it has succeeded, and its log holds at
/// most `LOG_RING` lines.
pub proof fn result_only_when_succeeded<R>(m: JobManager<R>)
    requires
        m.wf(),
    ensures
        forall|i: int|
            0 <= i < m.jobs().len() ==> ((#[trigger] m.jobs()[i]).result is Some ==> m.jobs()[i].status
                is Succeeded) && m.jobs()[i].log.len() <= LOG_RING,
{
}

/// Appending to a log keeps at most `LOG_RING` lines, ends with the new
/// line, and keeps the newest of the earlier lines in order.
pub proof fn log_ring_keeps_newest(log: Seq<Seq<char>>, line: Seq<char>)
    requires
        log.len() <= LOG_RING,
    ensures
        ring_push(log, line).len() <= LOG_RING,
        ring_push(log, line).last() == line,
        ring_push(log, line) == log.push(line).skip(
            log.push(line).len() - ring_push(log, line).len(),
        ),
        log.len() < LOG_RING ==> ring_push(log, line) == log.push(line),
{
}

/// A run always ends in a terminal status; a success on a job flagged for
/// cancellation ends as cancelled; only a success stores a result.
pub proof fn finish_is_terminal<R>(j: JobV<R>, now: i64, outcome: Result<R, (bool, bool, String)>)
    ensures
        finished_job(j, now, outcome).status.is_terminal(),
        finished_job(j, now, outcome).finished_at == Some(now),
        (j.cancelled && outcome is Ok) ==> finished_job(j, now, outcome).status is Cancelled,
        (!j.cancelled && outcome is Ok) ==> finished_job(j, now, outcome).status is Succeeded,
        (outcome is Err && j.result is None) ==> finished_job(j, now, outcome).result is None,
{
}

/// Eviction keeps exactly the jobs that are still queued or running, or
/// that finished less than `EVICT_AFTER_MS` ago.
pub proof fn eviction_keeps_live_jobs<R>(js: Seq<JobV<R>>, now: i64, x: JobV<R>)
    ensures
        kept(js, now).contains(x) <==> (js.contains(x) && keep_job(x, now)),
    decreases js.len(),
{
    if js.len() > 0 {
        let init = js.drop_last();
        eviction_keeps_live_jobs(init, now, x);
        let p = kept(init, now);
        if js.contains(x) && keep_job(x, now) {
            let i = choose|i: int| 0 <= i < js.len() && js[i] == x;
            if i < js.len() - 1 {
                assert(init[i] == x);
                let w = choose|w: int| 0 <= w < p.len() && p[w] == x;
                if keep_job(js.last(), now) {
                    assert(p.push(js.last())[w] == x);
                }
            } else {
                assert(kept(js, now) == p.push(js.last()));
                assert(kept(js, now)[p.len() as int] == x);
            }
        }
        if kept(js, now).contains(x) {
            let w = choose|w: int| 0 <= w < kept(js, now).len() && kept(js, now)[w] == x;
            if w < p.len() {
                assert(p[w] == x);
                let i = choose|i: int| 0 <= i < init.len() && init[i] == x;
                assert(js[i] == x);
            } else {
                assert(js[js.len() - 1] == x);
            }
        }
    }
}

/// Finished jobs answer 200 / 500 / 410; queued and running ones 202.
pub proof fn status_codes(s: JobStatus)
    ensures
        s is Succeeded ==> status_code_spec(s) == 200,
        s is Failed ==> status_code_spec(s) == 500,
        s is Cancelled ==> status_code_spec(s) == 410,
        !s.is_terminal() <==> status_code_spec(s) == 202,
{
}

} // verus!
