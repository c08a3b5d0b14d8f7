//! The shell's state and its dispatcher. One typed line either changes the
//! state directly (`NAME=value`, `exit`), asks for output (`pwd`), asks for
//! a directory change (`cd`), is ill-formed, or becomes a pipeline ready to
//! be spawned. The caller performs the operating-system side of each
//! decision and reports back: the canonical directory a `cd` resolved to,
//! the process id of a background pipeline, and the ids of background
//! processes observed to have exited.

use vstd::prelude::*;
use vstd::string::StrSliceExecFns;
use vstd::string::StringExecFns;
use crate::chars::chars_eq_str;
use crate::chars::chars_to_string;
use crate::chars::str_chars;
use crate::chars::str_eq;
use crate::chars::sub_chars;
use crate::chars::trim_end;
use crate::chars::trim_end_rec;
use crate::expand::expand_chars;
use crate::pipeline::Pipeline;
use crate::pipeline::SegOutcome;
use crate::pipeline::StageSpec;
use crate::pipeline::build_stage;
use crate::pipeline::build_stages;
use crate::pipeline::lemma_no_pipe_single_segment;
use crate::pipeline::spec_wiring;
use crate::pipeline::split_on_pipes;
use crate::pipeline::split_pipes;
use crate::pipeline::stage_of;
use crate::pipeline::stages_of;
use crate::pipeline::stages_view;
use crate::pipeline::SinkSpec;
use crate::pipeline::SourceSpec;
use crate::pipeline::WiringSpec;
use crate::redirect::lemma_missing_path_is_error;
use crate::redirect::lemma_no_ops_extract;
use crate::redirect::op_of;
use crate::tokenize::tokenize;
use crate::tokenize::tokens_of;
use crate::tokenize::views_of;
use crate::vars::VarTable;

verus! {

/// Whether a tracked background pipeline is still running.
#[derive(Clone, Copy, PartialEq, Eq, Structural)]
pub enum JobState {
    Running,
    Done,
}

/// A tracked background pipeline, identified by its trailing stage's
/// process id.
pub struct Job {
    pub id: u64,
    pub pid: u32,
    pub command_text: String,
    pub state: JobState,
}

/// The specification-level form of a job.
#[verifier::ext_equal]
pub struct JobSpec {
    pub id: u64,
    pub pid: u32,
    pub command_text: Seq<char>,
    pub state: JobState,
}

impl View for Job {
    type V = JobSpec;

    open spec fn view(&self) -> JobSpec {
        JobSpec {
            id: self.id,
            pid: self.pid,
            command_text: self.command_text@,
            state: self.state,
        }
    }
}

/// The views of the job table.
pub open spec fn jobs_view(js: Seq<Job>) -> Seq<JobSpec> {
    Seq::new(js.len(), |i: int| js[i]@)
}

/// The specification-level shell state.
#[verifier::ext_equal]
pub struct ShellSpec {
    pub current_dir: Seq<char>,
    pub previous_dir: Option<Seq<char>>,
    pub vars: Seq<(Seq<char>, Seq<char>)>,
    pub running: bool,
    pub jobs: Seq<JobSpec>,
    pub next_job_id: u64,
}

/// One shell session: working directory, variable table, running flag and
/// the table of background jobs.
pub struct Shell {
    pub current_dir: String,
    pub previous_dir: Option<String>,
    pub vars: VarTable,
    pub running: bool,
    pub jobs: Vec<Job>,
    pub next_job_id: u64,
}

impl View for Shell {
    type V = ShellSpec;

    open spec fn view(&self) -> ShellSpec {
        ShellSpec {
            current_dir: self.current_dir@,
            previous_dir: match self.previous_dir {
                Some(p) => Some(p@),
                None => None,
            },
            vars: self.vars@,
            running: self.running,
            jobs: jobs_view(self.jobs@),
            next_job_id: self.next_job_id,
        }
    }
}

/// What the caller must do after one line has been processed.
pub enum Action {
    /// Nothing: the line was empty, an assignment, or `exit`.
    Done,
    /// Print this line on standard output (`pwd`).
    Output(String),
    /// Resolve this `cd` argument, canonicalize, and report back.
    Cd(Option<String>),
    /// Report this syntax error; nothing is spawned.
    SyntaxError(String),
    /// Spawn this pipeline.
    Run(Pipeline),
}

/// The specification-level decision.
pub enum Decision {
    Done,
    Output(Seq<char>),
    Cd(Option<Seq<char>>),
    Syntax,
    Run(Seq<StageSpec>, bool),
}

/// The view of a decision handed to the caller.
pub open spec fn action_view(a: Action) -> Decision {
    match a {
        Action::Done => Decision::Done,
        Action::Output(s) => Decision::Output(s@),
        Action::Cd(arg) => Decision::Cd(
            match arg {
                Some(s) => Some(s@),
                None => None,
            },
        ),
        Action::SyntaxError(_) => Decision::Syntax,
        Action::Run(p) => Decision::Run(stages_view(p.stages@), p.background),
    }
}

/// Whether a trimmed line ends in the background marker ` &`.
pub open spec fn ends_in_amp(t: Seq<char>) -> bool {
    t.len() >= 2 && t[t.len() - 2] == ' ' && t[t.len() - 1] == '&'
}

/// Whether a raw line asks to run in the background.
pub open spec fn bg_of(line: Seq<char>) -> bool {
    ends_in_amp(trim_end_rec(line))
}

/// The line with trailing whitespace and any background marker removed.
pub open spec fn body_of(line: Seq<char>) -> Seq<char> {
    let t = trim_end_rec(line);
    if ends_in_amp(t) {
        t.take(t.len() - 2)
    } else {
        t
    }
}

/// The position of the first `=` in a token at or after `i`, or the
/// token's length when there is none.
pub open spec fn eq_pos_from(t: Seq<char>, i: int) -> int
    decreases t.len() - i,
{
    if !(0 <= i < t.len()) {
        t.len() as int
    } else if t[i] == '=' {
        i
    } else {
        eq_pos_from(t, i + 1)
    }
}

/// Whether a token is a `NAME=value` assignment: it holds an `=` and does
/// not start with one.
pub open spec fn is_assignment(t: Seq<char>) -> bool {
    t.len() > 0 && t[0] != '=' && eq_pos_from(t, 0) < t.len()
}

/// The dispatch of a single-segment line: assignment, `cd`, `exit` and
/// `pwd` are interpreted by the shell itself; anything else becomes a
/// one-stage pipeline.
pub open spec fn single_step(
    st: ShellSpec,
    seg: Seq<char>,
    bg: bool,
    env: Seq<(Seq<char>, Seq<char>)>,
) -> (ShellSpec, Decision) {
    match tokens_of(seg) {
        None => (st, Decision::Syntax),
        Some(toks) => if toks.len() == 0 {
            (st, Decision::Done)
        } else {
            let t0 = toks[0];
            if is_assignment(t0) {
                let k = eq_pos_from(t0, 0);
                (
                    ShellSpec { vars: st.vars.push((t0.take(k), t0.skip(k + 1))), ..st },
                    Decision::Done,
                )
            } else if t0 == "cd"@ {
                (
                    st,
                    Decision::Cd(
                        if toks.len() >= 2 {
                            Some(toks[1])
                        } else {
                            None
                        },
                    ),
                )
            } else if t0 == "exit"@ {
                (ShellSpec { running: false, ..st }, Decision::Done)
            } else if t0 == "pwd"@ {
                (st, Decision::Output(st.current_dir))
            } else {
                match stage_of(seg, st.vars, env) {
                    SegOutcome::Bad => (st, Decision::Syntax),
                    SegOutcome::Empty => (st, Decision::Done),
                    SegOutcome::Made(stg) => (st, Decision::Run(seq![stg], bg)),
                }
            }
        },
    }
}

/// The decision one whole command line leads to, and the state after it.
pub open spec fn shell_step(
    st: ShellSpec,
    line: Seq<char>,
    env: Seq<(Seq<char>, Seq<char>)>,
) -> (ShellSpec, Decision) {
    let bg = bg_of(line);
    let body = body_of(line);
    let segs = split_pipes(body);
    if segs.len() == 1 {
        single_step(st, segs[0], bg, env)
    } else {
        match stages_of(segs, st.vars, env) {
            None => (st, Decision::Syntax),
            Some(ss) => if ss.len() == 0 {
                (st, Decision::Done)
            } else {
                (st, Decision::Run(ss, bg))
            },
        }
    }
}

/// The position of the first `=` in a token.
fn find_eq(t: &Vec<char>) -> (r: usize)
    ensures
        r as int == eq_pos_from(t@, 0),
        r <= t@.len(),
{
    let n = t.len();
    let mut i: usize = 0;
    while i < n
        invariant
            i <= n,
            n == t@.len(),
            eq_pos_from(t@, 0) == eq_pos_from(t@, i as int),
        decreases n - i,
    {
        if t[i] == '=' {
            return i;
        }
        i = i + 1;
    }
    n
}

impl Shell {
    /// A fresh session in the given working directory: no previous
    /// directory, no variables, no jobs, running.
    pub fn new(current_dir: String) -> (r: Shell)
        ensures
            r@ == (ShellSpec {
                current_dir: current_dir@,
                previous_dir: None,
                vars: Seq::empty(),
                running: true,
                jobs: Seq::empty(),
                next_job_id: 1,
            }),
    {
        let r = Shell {
            current_dir,
            previous_dir: None,
            vars: VarTable::new(),
            running: true,
            jobs: Vec::new(),
            next_job_id: 1,
        };
        proof {
            assert(jobs_view(r.jobs@) =~= Seq::<JobSpec>::empty());
            assert(r@ =~= (ShellSpec {
                current_dir: r.current_dir@,
                previous_dir: None,
                vars: Seq::empty(),
                running: true,
                jobs: Seq::empty(),
                next_job_id: 1,
            }));
        }
        r
    }

    /// Dispatches one single-segment line.
    fn process_command(&mut self, seg: &Vec<char>, background: bool, env: &VarTable) -> (r: Action)
        ensures
            ({
                let (st2, d) = single_step(old(self)@, seg@, background, env@);
                final(self)@ == st2 && action_view(r) == d
            }),
    {
        let toks = match tokenize(seg) {
            Some(ts) => ts,
            None => {
                return Action::SyntaxError(String::from_str("syntax error: unclosed quote"));
            },
        };
        if toks.len() == 0 {
            return Action::Done;
        }
        let t0 = &toks[0];
        let k = find_eq(t0);
        if t0.len() > 0 && t0[0] != '=' && k < t0.len() {
            let name = sub_chars(t0, 0, k);
            let value = sub_chars(t0, k + 1, t0.len());
            proof {
                assert(name@ =~= t0@.take(k as int));
                assert(value@ =~= t0@.skip(k + 1));
            }
            self.vars.set(chars_to_string(&name), chars_to_string(&value));
            return Action::Done;
        }
        assert(!is_assignment(views_of(toks@)[0]));
        if chars_eq_str(t0, "cd") {
            let arg = if toks.len() >= 2 {
                Some(chars_to_string(&toks[1]))
            } else {
                None
            };
            return Action::Cd(arg);
        }
        if chars_eq_str(t0, "exit") {
            self.running = false;
            return Action::Done;
        }
        if chars_eq_str(t0, "pwd") {
            return Action::Output(self.current_dir.clone());
        }
        match build_stage(seg, &self.vars, env) {
            Err(()) => Action::SyntaxError(
                String::from_str("syntax error: redirection without a target"),
            ),
            Ok(None) => Action::Done,
            Ok(Some(stg)) => {
                let mut stages = Vec::new();
                stages.push(stg);
                let p = Pipeline { stages, background };
                proof {
                    assert(stages_view(p.stages@) =~= seq![
                        stage_of(seg@, old(self)@.vars, env@)->Made_0,
                    ]);
                }
                Action::Run(p)
            },
        }
    }

    /// Processes one typed command line: interprets a builtin against the
    /// state, or decides what the caller must spawn, print or resolve.
    pub fn execute_command(&mut self, command: &str, env: &VarTable) -> (r: Action)
        ensures
            ({
                let (st2, d) = shell_step(old(self)@, command@, env@);
                final(self)@ == st2 && action_view(r) == d
            }),
    {
        let cs = str_chars(command);
        let mut t = trim_end(&cs);
        let background = t.len() >= 2 && t[t.len() - 2] == ' ' && t[t.len() - 1] == '&';
        if background {
            let m = t.len() - 2;
            t.truncate(m);
        }
        let segs = split_on_pipes(&t);
        if segs.len() == 1 {
            self.process_command(&segs[0], background, env)
        } else {
            match build_stages(&segs, &self.vars, env) {
                None => Action::SyntaxError(
                    String::from_str("syntax error: ill-formed pipeline"),
                ),
                Some(stages) => {
                    if stages.len() == 0 {
                        Action::Done
                    } else {
                        Action::Run(Pipeline { stages, background })
                    }
                },
            }
        }
    }
}

/// Where a `cd` argument points before the file system is consulted.
pub enum CdTarget {
    /// No argument or `~`: the home directory.
    Home,
    /// A concrete path: the argument itself if absolute, else the argument
    /// joined onto the current directory; for `-`, the previous directory.
    Path(Seq<char>),
    /// `-` with no previous directory recorded.
    NoPrevious,
}

/// A relative path joined onto a base directory.
pub open spec fn join_path(base: Seq<char>, rel: Seq<char>) -> Seq<char> {
    if base.len() > 0 && base.last() == '/' {
        base + rel
    } else {
        base + seq!['/'] + rel
    }
}

/// The resolution rule for a `cd` argument.
pub open spec fn cd_target(
    current: Seq<char>,
    previous: Option<Seq<char>>,
    arg: Option<Seq<char>>,
) -> CdTarget {
    match arg {
        None => CdTarget::Home,
        Some(a) => if a == "~"@ {
            CdTarget::Home
        } else if a == "-"@ {
            match previous {
                Some(p) => CdTarget::Path(p),
                None => CdTarget::NoPrevious,
            }
        } else if a.len() > 0 && a[0] == '/' {
            CdTarget::Path(a)
        } else {
            CdTarget::Path(join_path(current, a))
        },
    }
}

/// The error `cd -` reports when no previous directory is recorded.
#[derive(Debug)]
pub enum CdError {
    NoPreviousDir,
}

/// Relies on `dirs::home_dir`: the platform's home directory, looked up in
/// the process environment; nothing is promised of the result.
#[verifier::external_body]
fn home_directory() -> (r: Option<String>)
{
    dirs::home_dir().map(|p| p.to_string_lossy().into_owned())
}

/// The home directory, or the root directory when none is known.
fn home_or_root() -> (r: String)
{
    match home_directory() {
        Some(h) => h,
        None => String::from_str("/"),
    }
}

impl Shell {
    /// Resolves a `cd` argument to the directory the caller must
    /// canonicalize: home for no argument or `~`, the previous directory
    /// for `-` (an error when none is recorded), an absolute path as-is,
    /// and a relative path joined onto the current directory. The state is
    /// not touched; a successful change is applied with `apply_cd`.
    pub fn cd_destination(&self, arg: &Option<String>) -> (r: Result<String, CdError>)
        ensures
            ({
                let target = cd_target(
                    self@.current_dir,
                    self@.previous_dir,
                    match *arg {
                        Some(a) => Some(a@),
                        None => None,
                    },
                );
                match target {
                    CdTarget::Home => r is Ok,
                    CdTarget::Path(p) => (r matches Ok(d) && d@ == p),
                    CdTarget::NoPrevious => (r matches Err(e) && e == CdError::NoPreviousDir),
                }
            }),
    {
        match arg {
            None => Ok(home_or_root()),
            Some(a) => {
                if str_eq(a.as_str(), "~") {
                    Ok(home_or_root())
                } else if str_eq(a.as_str(), "-") {
                    match &self.previous_dir {
                        Some(p) => Ok(p.clone()),
                        None => Err(CdError::NoPreviousDir),
                    }
                } else if a.unicode_len() > 0 && a.as_str().get_char(0) == '/' {
                    Ok(a.clone())
                } else {
                    let mut d = self.current_dir.clone();
                    let n = d.unicode_len();
                    if !(n > 0 && d.as_str().get_char(n - 1) == '/') {
                        d.append("/");
                        proof {
                            reveal_strlit("/");
                            assert(d@ =~= self.current_dir@ + seq!['/']);
                        }
                    }
                    d.append(a.as_str());
                    proof {
                        if self.current_dir@.len() > 0 && self.current_dir@.last() == '/' {
                            assert(d@ =~= join_path(self.current_dir@, a@));
                        } else {
                            assert(d@ =~= join_path(self.current_dir@, a@));
                        }
                    }
                    Ok(d)
                }
            },
        }
    }

    /// Records a successful directory change: the old current directory
    /// becomes the previous one.
    pub fn apply_cd(&mut self, dir: String)
        ensures
            final(self)@ == (ShellSpec {
                current_dir: dir@,
                previous_dir: Some(old(self)@.current_dir),
                ..old(self)@
            }),
    {
        let prev = self.current_dir.clone();
        self.previous_dir = Some(prev);
        self.current_dir = dir;
        proof {
            assert(final(self)@ =~= (ShellSpec {
                current_dir: dir@,
                previous_dir: Some(old(self)@.current_dir),
                ..old(self)@
            }));
        }
    }
}

/// After any successful `cd`, the argument `-` resolves to the directory
/// the shell was in before that `cd`; and when no previous directory is
/// recorded, `-` is an error and nothing changes.
pub proof fn lemma_cd_dash_restores(st: ShellSpec, target: Seq<char>)
    ensures
        ({
            let st2 = ShellSpec {
                current_dir: target,
                previous_dir: Some(st.current_dir),
                ..st
            };
            cd_target(st2.current_dir, st2.previous_dir, Some(seq!['-'])) == CdTarget::Path(
                st.current_dir,
            )
        }),
        st.previous_dir is None ==> cd_target(st.current_dir, st.previous_dir, Some(seq!['-']))
            == CdTarget::NoPrevious,
{
    reveal_strlit("~");
    reveal_strlit("-");
    assert(seq!['-'] =~= "-"@);
    assert("~"@[0] == '~' && seq!['-'][0] == '-');
    assert(seq!['-'] != "~"@);
}

/// The jobs that survive a poll: those whose process id was not reported
/// as exited, in their original order.
pub open spec fn jobs_retain(js: Seq<JobSpec>, exited: Seq<u32>) -> Seq<JobSpec>
    decreases js.len(),
{
    if js.len() == 0 {
        Seq::empty()
    } else {
        let rest = jobs_retain(js.drop_last(), exited);
        if exited.contains(js.last().pid) {
            rest
        } else {
            rest.push(js.last())
        }
    }
}

/// A job whose process was observed to exit leaves the table at the next
/// poll; one still running survives it unchanged.
pub proof fn lemma_reap_last(js: Seq<JobSpec>, exited: Seq<u32>, j: JobSpec)
    ensures
        exited.contains(j.pid) ==> jobs_retain(js.push(j), exited) == jobs_retain(js, exited),
        !exited.contains(j.pid) ==> jobs_retain(js.push(j), exited) == jobs_retain(
            js,
            exited,
        ).push(j),
{
    assert(js.push(j).drop_last() =~= js);
    assert(js.push(j).last() == j);
}

fn contains_pid(v: &Vec<u32>, x: u32) -> (r: bool)
    ensures
        r == v@.contains(x),
{
    let n = v.len();
    let mut i: usize = 0;
    while i < n
        invariant
            i <= n,
            n == v@.len(),
            forall|k: int| 0 <= k < i ==> v@[k] != x,
        decreases n - i,
    {
        if v[i] == x {
            assert(v@.contains(x));
            return true;
        }
        i = i + 1;
    }
    assert(!v@.contains(x));
    false
}

impl Shell {
    /// Records a background pipeline under the next positional id, keyed by
    /// its trailing stage's process id. `None` only when the id counter is
    /// exhausted; ids are handed out strictly increasing.
    pub fn register_background_job(&mut self, pid: u32, command_text: String) -> (r: Option<u64>)
        ensures
            old(self)@.next_job_id < u64::MAX ==> (r matches Some(id) && id == old(
                self,
            )@.next_job_id && final(self)@ == (ShellSpec {
                jobs: old(self)@.jobs.push(
                    JobSpec {
                        id: old(self)@.next_job_id,
                        pid,
                        command_text: command_text@,
                        state: JobState::Running,
                    },
                ),
                next_job_id: (old(self)@.next_job_id + 1) as u64,
                ..old(self)@
            })),
            old(self)@.next_job_id == u64::MAX ==> r is None && final(self)@ == old(self)@,
    {
        if self.next_job_id == u64::MAX {
            return None;
        }
        let id = self.next_job_id;
        self.next_job_id = id + 1;
        let ghost old_jobs = jobs_view(self.jobs@);
        self.jobs.push(Job { id, pid, command_text, state: JobState::Running });
        proof {
            assert(jobs_view(self.jobs@) =~= old_jobs.push(self.jobs@.last()@));
            assert(final(self)@ =~= (ShellSpec {
                jobs: old(self)@.jobs.push(
                    JobSpec {
                        id: old(self)@.next_job_id,
                        pid,
                        command_text: command_text@,
                        state: JobState::Running,
                    },
                ),
                next_job_id: (old(self)@.next_job_id + 1) as u64,
                ..old(self)@
            }));
        }
        Some(id)
    }

    /// Drops every job whose process id was reported as exited; the rest
    /// keep their order. Called with the result of a non-blocking poll
    /// before each new prompt.
    pub fn check_background_processes(&mut self, exited: &Vec<u32>)
        ensures
            final(self)@ == (ShellSpec {
                jobs: jobs_retain(old(self)@.jobs, exited@),
                ..old(self)@
            }),
    {
        let ghost jv = jobs_view(self.jobs@);
        let n = self.jobs.len();
        let mut kept: Vec<Job> = Vec::new();
        let mut i: usize = 0;
        proof {
            assert(jv.take(0) =~= Seq::<JobSpec>::empty());
            assert(jobs_view(kept@) =~= Seq::<JobSpec>::empty());
        }
        while i < n
            invariant
                i <= n,
                n == self.jobs@.len(),
                jv == jobs_view(self.jobs@),
                *self == *old(self),
                jobs_view(kept@) == jobs_retain(jv.take(i as int), exited@),
            decreases n - i,
        {
            proof {
                assert(jv.take(i + 1).drop_last() =~= jv.take(i as int));
                assert(jv.take(i + 1).last() == jv[i as int]);
            }
            let pid = self.jobs[i].pid;
            if !contains_pid(exited, pid) {
                let ghost old_kept = jobs_view(kept@);
                let j = Job {
                    id: self.jobs[i].id,
                    pid: self.jobs[i].pid,
                    command_text: self.jobs[i].command_text.clone(),
                    state: self.jobs[i].state,
                };
                proof {
                    assert(j@ =~= jv[i as int]);
                }
                kept.push(j);
                proof {
                    assert(jobs_view(kept@) =~= old_kept.push(kept@.last()@));
                }
            }
            i = i + 1;
        }
        proof {
            assert(jv.take(n as int) =~= jv);
        }
        self.jobs = kept;
        proof {
            assert(final(self)@ =~= (ShellSpec {
                jobs: jobs_retain(old(self)@.jobs, exited@),
                ..old(self)@
            }));
        }
    }
}

/// A single command with no operators passes through untouched: it becomes
/// one foreground stage whose argument vector is exactly the expanded words
/// of the line, with no redirections, and its planned wiring inherits all
/// three standard streams; the shell state does not change.
pub proof fn lemma_plain_command_passthrough(
    st: ShellSpec,
    line: Seq<char>,
    env: Seq<(Seq<char>, Seq<char>)>,
    toks: Seq<Seq<char>>,
)
    requires
        trim_end_rec(line) == line,
        !ends_in_amp(line),
        forall|k: int| 0 <= k < line.len() ==> line[k] != '|',
        tokens_of(line) == Some(toks),
        toks.len() > 0,
        !is_assignment(toks[0]),
        toks[0] != "cd"@,
        toks[0] != "exit"@,
        toks[0] != "pwd"@,
        forall|k: int| 0 <= k < toks.len() ==> op_of(toks[k]) is None,
    ensures
        ({
            let stage = StageSpec {
                args: Seq::new(toks.len(), |j: int| expand_chars(toks[j], st.vars, env)),
                redirs: Seq::empty(),
            };
            shell_step(st, line, env) == (st, Decision::Run(seq![stage], false))
                && spec_wiring(seq![stage], 0) == (WiringSpec {
                stdin: SourceSpec::Inherit,
                stdout: SinkSpec::Inherit,
                stderr: SinkSpec::Inherit,
            })
        }),
{
    lemma_no_pipe_single_segment(line);
    lemma_no_ops_extract(toks);
}

/// A redirection operator with no path after it discards the whole line as
/// a syntax error: the decision is never to run anything, and the state
/// does not change.
pub proof fn lemma_trailing_operator_discards(
    st: ShellSpec,
    line: Seq<char>,
    env: Seq<(Seq<char>, Seq<char>)>,
    toks: Seq<Seq<char>>,
)
    requires
        trim_end_rec(line) == line,
        !ends_in_amp(line),
        forall|k: int| 0 <= k < line.len() ==> line[k] != '|',
        tokens_of(line) == Some(toks),
        toks.len() > 0,
        !is_assignment(toks[0]),
        toks[0] != "cd"@,
        toks[0] != "exit"@,
        toks[0] != "pwd"@,
        op_of(toks.last()) is Some,
        forall|k: int| 0 <= k < toks.len() - 1 ==> op_of(toks[k]) is None,
    ensures
        shell_step(st, line, env) == (st, Decision::Syntax),
{
    lemma_no_pipe_single_segment(line);
    lemma_missing_path_is_error(toks);
}

/// Dispatching a line can change only the variable table and the running
/// flag: the working directories move only through `apply_cd`, and the job
/// table only through `register_background_job` and
/// `check_background_processes`.
pub proof fn lemma_dispatch_touches_only_vars_and_running(
    st: ShellSpec,
    line: Seq<char>,
    env: Seq<(Seq<char>, Seq<char>)>,
)
    ensures
        ({
            let (st2, _) = shell_step(st, line, env);
            st2.current_dir == st.current_dir && st2.previous_dir == st.previous_dir && st2.jobs
                == st.jobs && st2.next_job_id == st.next_job_id
        }),
{
}

} // verus!
