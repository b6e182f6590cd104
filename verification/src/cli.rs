//! Running an external command-line tool: where its binary is looked for,
//! how each event of a streamed run moves the run's state, and how a
//! finished run is judged (soft success on output, the error shown).
//! Spawning, reading and killing the process are the caller's.

use vstd::prelude::*;

use crate::text::ov;
use crate::common::{path_join, path_join_exec, spec_truncate_output, truncate_output};
use crate::text::{
    chars_of, contains, decimal, decimal_chars, join, join_chars, lit, push_all, push_str,
    seqs_view, split_char, split_chars, str_contains, string_of, strs_view, trim, trim_chars,
    lemma_split_nonempty,
};
use crate::wp_html::{lines_of, lines_spec};

verus! {

pub struct CliResult {
    pub ok: bool,
    pub binary: String,
    pub installed: bool,
    pub stdout: String,
    pub stderr: String,
    pub exit_code: Option<i32>,
    pub error: Option<String>,
    pub duration_ms: u64,
    pub command: String,
}

/// A streamed run's result; `cancelled` when the job's cancel flag stopped
/// it rather than a timeout or the tool's own exit.
pub struct StreamedCli {
    pub result: CliResult,
    pub cancelled: bool,
}

// ─── Finding the binary ─────────────────────────────────────────────────────

/// Directories searched after `PATH`.
pub open spec fn extra_dirs() -> Seq<Seq<char>> {
    seq!["/opt/homebrew/bin"@, "/usr/local/bin"@]
}

/// Where the binary is looked for, in order: each `PATH` entry (split at
/// `:`), then the Homebrew prefixes, each joined with the name as
/// `Path::join` does (an empty entry gives the bare name).
pub open spec fn binary_candidates_spec(path_var: Option<Seq<char>>, name: Seq<char>) -> Seq<Seq<char>> {
    let dirs = match path_var {
        Some(p) => split_char(p, ':'),
        None => seq![],
    };
    (dirs + extra_dirs()).map_values(|d: Seq<char>| path_join(d, name))
}

pub fn binary_candidates(path_var: Option<&str>, name: &str) -> (r: Vec<String>)
    ensures
        strs_view(r@) == binary_candidates_spec(
            match path_var {
                Some(p) => Some(p@),
                None => None,
            },
            name@,
        ),
{
    let mut dirs: Vec<Vec<char>> = match path_var {
        Some(p) => split_chars(chars_of(p).as_slice(), ':'),
        None => Vec::new(),
    };
    dirs.push(chars_of("/opt/homebrew/bin"));
    dirs.push(chars_of("/usr/local/bin"));
    let ghost dv = seqs_view(dirs@);
    assert(dv =~= match path_var {
        Some(p) => split_char(p@, ':'),
        None => Seq::<Seq<char>>::empty(),
    } + extra_dirs());
    let mut out: Vec<String> = Vec::new();
    let mut i: usize = 0;
    while i < dirs.len()
        invariant
            i <= dirs@.len(),
            dv == seqs_view(dirs@),
            strs_view(out@) =~= dv.take(i as int).map_values(|d: Seq<char>| path_join(d, name@)),
        decreases dirs@.len() - i,
    {
        let c = path_join_exec(dirs[i].as_slice(), chars_of(name).as_slice());
        let ghost prev = strs_view(out@);
        out.push(string_of(c.as_slice()));
        assert(strs_view(out@) =~= prev.push(path_join(dv[i as int], name@)));
        assert(dv.take(i + 1).map_values(|d: Seq<char>| path_join(d, name@)) =~= dv.take(
            i as int,
        ).map_values(|d: Seq<char>| path_join(d, name@)).push(path_join(dv[i as int], name@)));
        i = i + 1;
    }
    assert(dv.take(dirs@.len() as int) =~= dv);
    out
}

/// The first candidate that is a file (`exists[k]` tells whether
/// `candidates[k]` is one).
pub fn find_binary(candidates: &Vec<String>, exists: &Vec<bool>) -> (r: Option<String>)
    requires
        exists@.len() == candidates@.len(),
    ensures
        match r {
            Some(p) => exists|k: int|
                0 <= k < candidates@.len() && exists@[k] && p@ == candidates@[k]@ && forall|j: int|
                    0 <= j < k ==> !exists@[j],
            None => forall|k: int| 0 <= k < exists@.len() ==> !exists@[k],
        },
{
    let mut i: usize = 0;
    while i < candidates.len()
        invariant
            i <= candidates@.len(),
            exists@.len() == candidates@.len(),
            forall|j: int| 0 <= j < i ==> !exists@[j],
        decreases candidates@.len() - i,
    {
        if exists[i] {
            return Some(candidates[i].clone());
        }
        i = i + 1;
    }
    None
}

/// Whether some candidate is a file.
pub fn binary_installed(candidates: &Vec<String>, exists: &Vec<bool>) -> (b: bool)
    requires
        exists@.len() == candidates@.len(),
    ensures
        b == exists@.contains(true),
{
    let r = find_binary(candidates, exists);
    proof {
        if exists@.contains(true) {
            let k = choose|k: int| 0 <= k < exists@.len() && exists@[k] == true;
            assert(exists@[k]);
        }
        if r is Some {
            let k = choose|k: int|
                0 <= k < candidates@.len() && exists@[k] && forall|j: int| 0 <= j < k ==> !exists@[j];
            assert(exists@[k] == true);
        }
    }
    r.is_some()
}

// ─── The command line and the early failures ────────────────────────────────

/// How a run is shown: the binary, a space, the arguments joined by spaces.
pub open spec fn command_display_spec(binary: Seq<char>, args: Seq<Seq<char>>) -> Seq<char> {
    binary + " "@ + join(args, " "@)
}

pub fn command_display(binary: &str, args: &Vec<String>) -> (r: String)
    ensures
        r@ == command_display_spec(binary@, strs_view(args@)),
{
    let mut v = chars_of(binary);
    push_str(&mut v, " ");
    let mut parts: Vec<Vec<char>> = Vec::new();
    let mut i: usize = 0;
    while i < args.len()
        invariant
            i <= args@.len(),
            seqs_view(parts@) =~= strs_view(args@).take(i as int),
        decreases args@.len() - i,
    {
        let ghost prev = seqs_view(parts@);
        parts.push(chars_of(args[i].as_str()));
        assert(seqs_view(parts@) =~= prev.push(args@[i as int]@));
        i = i + 1;
    }
    assert(strs_view(args@).take(args@.len() as int) =~= strs_view(args@));
    push_all(&mut v, join_chars(&parts, " ").as_slice());
    string_of(v.as_slice())
}

pub open spec fn result_v(
    r: CliResult,
) -> (bool, Seq<char>, bool, Seq<char>, Seq<char>, Option<i32>, Option<Seq<char>>, u64, Seq<char>) {
    (
        r.ok,
        r.binary@,
        r.installed,
        r.stdout@,
        r.stderr@,
        r.exit_code,
        ov(r.error),
        r.duration_ms,
        r.command@,
    )
}

/// The result when the binary is nowhere to be found.
pub fn not_installed(binary: &str, args: &Vec<String>) -> (r: StreamedCli)
    ensures
        !r.cancelled,
        result_v(r.result) == (
            false,
            binary@,
            false,
            Seq::<char>::empty(),
            Seq::<char>::empty(),
            None::<i32>,
            Some(binary@ + " is not installed. Run: brew install "@ + binary@),
            0u64,
            command_display_spec(binary@, strs_view(args@)),
        ),
{
    let mut m = chars_of(binary);
    push_str(&mut m, " is not installed. Run: brew install ");
    push_str(&mut m, binary);
    proof {
        reveal_strlit("");
    }
    StreamedCli {
        result: CliResult {
            ok: false,
            binary: lit(binary),
            installed: false,
            stdout: lit(""),
            stderr: lit(""),
            exit_code: None,
            error: Some(string_of(m.as_slice())),
            duration_ms: 0,
            command: command_display(binary, args),
        },
        cancelled: false,
    }
}

/// The result when the process could not be started.
pub fn spawn_failed(binary: &str, args: &Vec<String>, error: &str, duration_ms: u64) -> (r:
    StreamedCli)
    ensures
        !r.cancelled,
        result_v(r.result) == (
            false,
            binary@,
            true,
            Seq::<char>::empty(),
            Seq::<char>::empty(),
            None::<i32>,
            Some("Failed to spawn "@ + binary@ + ": "@ + error@),
            duration_ms,
            command_display_spec(binary@, strs_view(args@)),
        ),
{
    let mut m = chars_of("Failed to spawn ");
    push_str(&mut m, binary);
    push_str(&mut m, ": ");
    push_str(&mut m, error);
    proof {
        reveal_strlit("");
    }
    StreamedCli {
        result: CliResult {
            ok: false,
            binary: lit(binary),
            installed: true,
            stdout: lit(""),
            stderr: lit(""),
            exit_code: None,
            error: Some(string_of(m.as_slice())),
            duration_ms,
            command: command_display(binary, args),
        },
        cancelled: false,
    }
}

// ─── Streaming ──────────────────────────────────────────────────────────────

/// What happened while reading the tool's standard output.
pub enum StreamEvent {
    /// The job's cancel flag was seen set before a read.
    CancelRequested,
    /// The overall timeout elapsed.
    TimedOut,
    /// A line arrived (with its line ending, if any).
    Line(String),
    /// The output ended.
    Eof,
    /// Reading failed with this message.
    ReadFailed(String),
    /// Nothing arrived within the read slice.
    Idle,
}

/// What the caller does next.
pub enum StepAction {
    /// Read again.
    Continue,
    /// Hand this line (line ending removed) to the job's log, then read again.
    Emit(String),
    /// Stop reading.
    Stop,
}

/// A run in progress: the output gathered and why reading stopped.
pub struct StreamState {
    pub stdout: Vec<char>,
    pub stderr: Vec<char>,
    pub cancelled: bool,
    pub timed_out: bool,
}

pub fn stream_start() -> (s: StreamState)
    ensures
        s.stdout@.len() == 0,
        s.stderr@.len() == 0,
        !s.cancelled,
        !s.timed_out,
{
    StreamState { stdout: Vec::new(), stderr: Vec::new(), cancelled: false, timed_out: false }
}

/// Trailing `\r` and `\n` dropped.
pub open spec fn strip_eol(s: Seq<char>) -> Seq<char>
    decreases s.len(),
{
    if s.len() > 0 && (s.last() == '\r' || s.last() == '\n') {
        strip_eol(s.drop_last())
    } else {
        s
    }
}

fn strip_eol_exec(v: &[char]) -> (r: Vec<char>)
    ensures
        r@ == strip_eol(v@),
{
    let mut e: usize = v.len();
    assert(v@.take(v@.len() as int) =~= v@);
    while e > 0 && (v[e - 1] == '\r' || v[e - 1] == '\n')
        invariant
            e <= v@.len(),
            strip_eol(v@) == strip_eol(v@.take(e as int)),
        decreases e,
    {
        assert(v@.take(e as int).drop_last() =~= v@.take(e - 1));
        e = e - 1;
    }
    let r = crate::text::slice_chars(v, 0, e);
    assert(r@ =~= v@.take(e as int));
    r
}

/// How one event moves a run: a cancel or a timeout stops it and is
/// remembered; a line is kept and handed on; a read error is noted on
/// standard error; the end stops; an idle slice reads again.
pub fn stream_step(s: &mut StreamState, event: StreamEvent) -> (a: StepAction)
    ensures
        match event {
            StreamEvent::CancelRequested => final(s).cancelled && final(s).timed_out == old(s).timed_out
                && final(s).stdout@ == old(s).stdout@ && final(s).stderr@ == old(s).stderr@ && a is Stop,
            StreamEvent::TimedOut => final(s).timed_out && final(s).cancelled == old(s).cancelled
                && final(s).stdout@ == old(s).stdout@ && final(s).stderr@ == old(s).stderr@ && a is Stop,
            StreamEvent::Line(l) => final(s).stdout@ == old(s).stdout@ + l@ && final(s).stderr@
                == old(s).stderr@ && final(s).cancelled == old(s).cancelled && final(s).timed_out
                == old(s).timed_out && (a matches StepAction::Emit(x) && x@ == strip_eol(l@)),
            StreamEvent::Eof => final(s).stdout@ == old(s).stdout@ && final(s).stderr@ == old(
                s,
            ).stderr@ && final(s).cancelled == old(s).cancelled && final(s).timed_out == old(
                s,
            ).timed_out && a is Stop,
            StreamEvent::ReadFailed(e) => final(s).stdout@ == old(s).stdout@ && final(s).stderr@
                == old(s).stderr@ + "stdout read error: "@ + e@ + "\n"@ && final(s).cancelled == old(
                s,
            ).cancelled && final(s).timed_out == old(s).timed_out && a is Stop,
            StreamEvent::Idle => final(s).stdout@ == old(s).stdout@ && final(s).stderr@ == old(
                s,
            ).stderr@ && final(s).cancelled == old(s).cancelled && final(s).timed_out == old(
                s,
            ).timed_out && a is Continue,
        },
{
    match event {
        StreamEvent::CancelRequested => {
            s.cancelled = true;
            StepAction::Stop
        },
        StreamEvent::TimedOut => {
            s.timed_out = true;
            StepAction::Stop
        },
        StreamEvent::Line(l) => {
            let lv = chars_of(l.as_str());
            push_all(&mut s.stdout, lv.as_slice());
            StepAction::Emit(string_of(strip_eol_exec(lv.as_slice()).as_slice()))
        },
        StreamEvent::Eof => StepAction::Stop,
        StreamEvent::ReadFailed(e) => {
            push_str(&mut s.stderr, "stdout read error: ");
            push_str(&mut s.stderr, e.as_str());
            push_str(&mut s.stderr, "\n");
            StepAction::Stop
        },
        StreamEvent::Idle => StepAction::Continue,
    }
}

// ─── Judging a finished run ─────────────────────────────────────────────────

/// A standard-error line worth showing: not blank, not a tool banner.
pub open spec fn hint_line(l: Seq<char>) -> bool {
    let t = trim(l);
    t.len() > 0 && !contains(t, "projectdiscovery"@) && !contains(t, "Current httpx"@) && !contains(
        t,
        "UI Dashboard"@,
    )
}

/// The lines worth showing, in order.
pub open spec fn hint_lines(ls: Seq<Seq<char>>) -> Seq<Seq<char>>
    decreases ls.len(),
{
    if ls.len() == 0 {
        seq![]
    } else {
        let p = hint_lines(ls.drop_last());
        if hint_line(ls.last()) {
            p.push(ls.last())
        } else {
            p
        }
    }
}

/// The first three such lines of standard error, joined by ` | `.
pub open spec fn hint_spec(stderr: Seq<char>) -> Seq<char> {
    let h = hint_lines(lines_spec(stderr));
    join(
        if h.len() > 3 {
            h.take(3)
        } else {
            h
        },
        " | "@,
    )
}

/// Decimal rendering of a signed integer.
pub open spec fn signed_decimal(x: int) -> Seq<char> {
    if x < 0 {
        "-"@ + decimal((-x) as nat)
    } else {
        decimal(x as nat)
    }
}

fn signed_decimal_exec(x: i32) -> (r: Vec<char>)
    ensures
        r@ == signed_decimal(x as int),
{
    let w: i64 = x as i64;
    if w < 0 {
        let mut v = chars_of("-");
        let m: u64 = (0 - w) as u64;
        push_all(&mut v, decimal_chars(m).as_slice());
        proof {
            reveal_strlit("-");
        }
        v
    } else {
        decimal_chars(w as u64)
    }
}

/// A run succeeds when it printed something and was neither cancelled nor
/// timed out, whatever its exit code.
pub open spec fn soft_ok_spec(stdout: Seq<char>, cancelled: bool, timed_out: bool) -> bool {
    trim(stdout).len() > 0 && !cancelled && !timed_out
}

/// The error shown for a run that did not succeed.
pub open spec fn run_error_spec(
    binary: Seq<char>,
    timeout_secs: u64,
    stderr: Seq<char>,
    code: Option<i32>,
    cancelled: bool,
    timed_out: bool,
) -> Seq<char> {
    if cancelled {
        "Cancelled"@
    } else if timed_out {
        binary + " timed out after "@ + decimal(timeout_secs as nat) + "s"@
    } else if hint_spec(stderr).len() == 0 {
        binary + " exited with code "@ + match code {
            Some(c) => signed_decimal(c as int),
            None => "?"@,
        }
    } else {
        spec_truncate_output(hint_spec(stderr), 400)
    }
}

fn hint_of(stderr: &str) -> (r: Vec<char>)
    ensures
        r@ == hint_spec(stderr@),
{
    let ls = lines_of(stderr);
    let ghost lv = seqs_view(ls@);
    let mut kept: Vec<Vec<char>> = Vec::new();
    let mut i: usize = 0;
    while i < ls.len()
        invariant
            i <= ls@.len(),
            lv == seqs_view(ls@),
            seqs_view(kept@) == hint_lines(lv.take(i as int)),
        decreases ls@.len() - i,
    {
        assert(lv.take(i + 1).drop_last() =~= lv.take(i as int));
        assert(lv.take(i + 1).last() == ls@[i as int]@);
        let t = string_of(trim_chars(ls[i].as_slice()).as_slice());
        let tv = chars_of(t.as_str());
        if tv.len() > 0 && !str_contains(t.as_str(), "projectdiscovery") && !str_contains(
            t.as_str(),
            "Current httpx",
        ) && !str_contains(t.as_str(), "UI Dashboard") {
            let ghost prev = seqs_view(kept@);
            let line = crate::text::slice_chars(ls[i].as_slice(), 0, ls[i].len());
            assert(line@ =~= ls@[i as int]@);
            kept.push(line);
            assert(seqs_view(kept@) =~= prev.push(ls@[i as int]@));
        }
        i = i + 1;
    }
    assert(lv.take(ls@.len() as int) =~= lv);
    if kept.len() > 3 {
        kept.truncate(3);
    }
    assert(seqs_view(kept@) =~= (if hint_lines(lv).len() > 3 {
        hint_lines(lv).take(3)
    } else {
        hint_lines(lv)
    }));
    join_chars(&kept, " | ")
}

/// Judges a finished streamed run.
pub fn finish_run(
    binary: &str,
    args: &Vec<String>,
    timeout_secs: u64,
    state: StreamState,
    stderr_rest: &str,
    code: Option<i32>,
    duration_ms: u64,
) -> (r: StreamedCli)
    ensures
        ({
            let stderr = state.stderr@ + stderr_rest@;
            let ok = soft_ok_spec(state.stdout@, state.cancelled, state.timed_out);
            result_v(r.result) == (
                ok,
                binary@,
                true,
                state.stdout@,
                stderr,
                code,
                if ok {
                    None
                } else {
                    Some(
                        run_error_spec(
                            binary@,
                            timeout_secs,
                            stderr,
                            code,
                            state.cancelled,
                            state.timed_out,
                        ),
                    )
                },
                duration_ms,
                command_display_spec(binary@, strs_view(args@)),
            ) && r.cancelled == state.cancelled
        }),
{
    let stdout = string_of(state.stdout.as_slice());
    let mut ev = state.stderr;
    push_str(&mut ev, stderr_rest);
    let stderr = string_of(ev.as_slice());
    let has_stdout = trim_chars(state.stdout.as_slice()).len() > 0;
    let ok = has_stdout && !state.cancelled && !state.timed_out;
    let error = if ok {
        None
    } else {
        let hint = hint_of(stderr.as_str());
        Some(
            if state.cancelled {
                lit("Cancelled")
            } else if state.timed_out {
                let mut m = chars_of(binary);
                push_str(&mut m, " timed out after ");
                push_all(&mut m, decimal_chars(timeout_secs).as_slice());
                push_str(&mut m, "s");
                string_of(m.as_slice())
            } else if hint.len() == 0 {
                let mut m = chars_of(binary);
                push_str(&mut m, " exited with code ");
                match code {
                    Some(c) => push_all(&mut m, signed_decimal_exec(c).as_slice()),
                    None => push_str(&mut m, "?"),
                }
                string_of(m.as_slice())
            } else {
                truncate_output(string_of(hint.as_slice()).as_str(), 400)
            },
        )
    };
    StreamedCli {
        result: CliResult {
            ok,
            binary: lit(binary),
            installed: true,
            stdout,
            stderr,
            exit_code: code,
            error,
            duration_ms,
            command: command_display(binary, args),
        },
        cancelled: state.cancelled,
    }
}

} // verus!
