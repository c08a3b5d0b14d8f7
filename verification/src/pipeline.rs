//! Pipelines: splitting a command line on `|`, building one stage per
//! segment (words split, redirections extracted, variables expanded), and
//! planning each stage's stream wiring. Only the first stage's input
//! redirection and the last stage's output redirections are honored against
//! files; every interior connection is an inter-process pipe.

use vstd::prelude::*;
use crate::chars::chars_to_string;
use crate::expand::expand;
use crate::expand::expand_chars;
use crate::redirect::Extracted;
use crate::redirect::Redirection;
use crate::redirect::RedirSpec;
use crate::redirect::extract;
use crate::redirect::extract_redirections;
use crate::redirect::resolve;
use crate::redirect::resolve_streams;
use crate::redirect::rviews;
use crate::redirect::streams_view;
use crate::tokenize::tokenize;
use crate::tokenize::tokens_of;
use crate::tokenize::views_of;
use crate::vars::VarTable;

verus! {

/// The segments of a command line, split on `|`; a line with no pipe
/// operator is the single segment holding the whole line.
pub open spec fn segs_from(
    s: Seq<char>,
    i: int,
    cur: Seq<char>,
    acc: Seq<Seq<char>>,
) -> Seq<Seq<char>>
    decreases s.len() - i,
{
    if !(0 <= i <= s.len()) {
        acc
    } else if i == s.len() {
        acc.push(cur)
    } else if s[i] == '|' {
        segs_from(s, i + 1, Seq::empty(), acc.push(cur))
    } else {
        segs_from(s, i + 1, cur.push(s[i]), acc)
    }
}

pub open spec fn split_pipes(s: Seq<char>) -> Seq<Seq<char>> {
    segs_from(s, 0, Seq::empty(), Seq::empty())
}

/// Splits a line on the pipe operator.
pub fn split_on_pipes(v: &Vec<char>) -> (r: Vec<Vec<char>>)
    ensures
        views_of(r@) == split_pipes(v@),
{
    let n = v.len();
    let mut i: usize = 0;
    let mut cur: Vec<char> = Vec::new();
    let mut acc: Vec<Vec<char>> = Vec::new();
    proof {
        assert(views_of(acc@) =~= Seq::<Seq<char>>::empty());
        assert(cur@ =~= Seq::<char>::empty());
    }
    while i < n
        invariant
            i <= n,
            n == v@.len(),
            segs_from(v@, i as int, cur@, views_of(acc@)) == split_pipes(v@),
        decreases n - i,
    {
        let c = v[i];
        if c == '|' {
            let ghost old_acc = views_of(acc@);
            acc.push(cur);
            cur = Vec::new();
            proof {
                assert(views_of(acc@) =~= old_acc.push(acc@.last()@));
                assert(cur@ =~= Seq::<char>::empty());
            }
        } else {
            cur.push(c);
        }
        i = i + 1;
    }
    let ghost old_acc = views_of(acc@);
    acc.push(cur);
    proof {
        assert(views_of(acc@) =~= old_acc.push(acc@.last()@));
    }
    acc
}

/// A line with no pipe character is one single segment: the line itself.
pub proof fn lemma_no_pipe_single_segment(s: Seq<char>)
    requires
        forall|k: int| 0 <= k < s.len() ==> s[k] != '|',
    ensures
        split_pipes(s) == seq![s],
{
    lemma_no_pipe_tail(s, 0, Seq::empty(), Seq::empty());
    assert(Seq::<char>::empty() + s.skip(0) =~= s);
    assert(Seq::<Seq<char>>::empty().push(s) =~= seq![s]);
}

proof fn lemma_no_pipe_tail(s: Seq<char>, i: int, cur: Seq<char>, acc: Seq<Seq<char>>)
    requires
        0 <= i <= s.len(),
        forall|k: int| i <= k < s.len() ==> s[k] != '|',
    ensures
        segs_from(s, i, cur, acc) == acc.push(cur + s.skip(i)),
    decreases s.len() - i,
{
    if i == s.len() {
        assert(cur + s.skip(i) =~= cur);
    } else {
        lemma_no_pipe_tail(s, i + 1, cur.push(s[i]), acc);
        assert(cur.push(s[i]) + s.skip(i + 1) =~= cur + s.skip(i));
    }
}

/// One program invocation within a pipeline: its argument vector (argv[0]
/// is the program) and the redirection directives scoped to it.
pub struct Stage {
    pub args: Vec<String>,
    pub redirs: Vec<Redirection>,
}

/// The specification-level form of a stage.
pub struct StageSpec {
    pub args: Seq<Seq<char>>,
    pub redirs: Seq<RedirSpec>,
}

/// The views of a vector of strings.
pub open spec fn strs_view(ss: Seq<String>) -> Seq<Seq<char>> {
    Seq::new(ss.len(), |i: int| ss[i]@)
}

/// The view of one stage.
pub open spec fn stage_view(st: Stage) -> StageSpec {
    StageSpec { args: strs_view(st.args@), redirs: rviews(st.redirs@) }
}

/// The views of a stage list.
pub open spec fn stages_view(v: Seq<Stage>) -> Seq<StageSpec> {
    Seq::new(v.len(), |i: int| stage_view(v[i]))
}

/// An ordered sequence of stages and whether the line ended in `&`.
pub struct Pipeline {
    pub stages: Vec<Stage>,
    pub background: bool,
}

/// What one segment yields: an ill-formed segment, a segment with no
/// argument words (it is dropped), or a stage.
pub enum SegOutcome {
    Bad,
    Empty,
    Made(StageSpec),
}

/// The stage a segment describes, with its argument words expanded.
pub open spec fn stage_of(
    seg: Seq<char>,
    locals: Seq<(Seq<char>, Seq<char>)>,
    env: Seq<(Seq<char>, Seq<char>)>,
) -> SegOutcome {
    match tokens_of(seg) {
        None => SegOutcome::Bad,
        Some(toks) => match extract(toks) {
            None => SegOutcome::Bad,
            Some(ex) => if ex.args.len() == 0 {
                SegOutcome::Empty
            } else {
                SegOutcome::Made(
                    StageSpec {
                        args: Seq::new(ex.args.len(), |j: int| expand_chars(ex.args[j], locals, env)),
                        redirs: ex.redirs,
                    },
                )
            },
        },
    }
}

/// The stages of a segment list; `None` when any segment is ill-formed.
pub open spec fn stages_of(
    segs: Seq<Seq<char>>,
    locals: Seq<(Seq<char>, Seq<char>)>,
    env: Seq<(Seq<char>, Seq<char>)>,
) -> Option<Seq<StageSpec>>
    decreases segs.len(),
{
    if segs.len() == 0 {
        Some(Seq::empty())
    } else {
        match stages_of(segs.drop_last(), locals, env) {
            None => None,
            Some(ss) => match stage_of(segs.last(), locals, env) {
                SegOutcome::Bad => None,
                SegOutcome::Empty => Some(ss),
                SegOutcome::Made(st) => Some(ss.push(st)),
            },
        }
    }
}

/// Builds the stage of one segment; `Err` reports an ill-formed segment,
/// `Ok(None)` a segment with no argument words.
pub fn build_stage(seg: &Vec<char>, locals: &VarTable, env: &VarTable) -> (r: Result<
    Option<Stage>,
    (),
>)
    ensures
        match r {
            Ok(Some(st)) => stage_of(seg@, locals@, env@) == SegOutcome::Made(stage_view(st)),
            Ok(None) => stage_of(seg@, locals@, env@) == SegOutcome::Empty,
            Err(()) => stage_of(seg@, locals@, env@) == SegOutcome::Bad,
        },
{
    let toks = match tokenize(seg) {
        Some(ts) => ts,
        None => {
            return Err(());
        },
    };
    let ex: Extracted = match extract_redirections(&toks) {
        Some(ex) => ex,
        None => {
            return Err(());
        },
    };
    if ex.args.len() == 0 {
        return Ok(None);
    }
    let ghost raw_args = views_of(ex.args@);
    let n = ex.args.len();
    let mut out: Vec<String> = Vec::new();
    let mut j: usize = 0;
    proof {
        assert(strs_view(out@) =~= Seq::<Seq<char>>::empty());
    }
    while j < n
        invariant
            j <= n,
            n == ex.args@.len(),
            raw_args == views_of(ex.args@),
            strs_view(out@) =~= Seq::new(j as nat, |k: int| expand_chars(raw_args[k], locals@, env@)),
        decreases n - j,
    {
        let expanded = expand(&ex.args[j], locals, env);
        let ghost old_out = strs_view(out@);
        out.push(chars_to_string(&expanded));
        proof {
            assert(strs_view(out@) =~= old_out.push(out@.last()@));
            assert(strs_view(out@) =~= Seq::new(
                (j + 1) as nat,
                |k: int| expand_chars(raw_args[k], locals@, env@),
            ));
        }
        j = j + 1;
    }
    let st = Stage { args: out, redirs: ex.redirs };
    proof {
        assert(stage_view(st).args =~= Seq::new(
            raw_args.len(),
            |k: int| expand_chars(raw_args[k], locals@, env@),
        ));
    }
    Ok(Some(st))
}

/// Builds the stages of a whole segment list; `None` when any segment is
/// ill-formed (the whole command line is then discarded).
pub fn build_stages(segs: &Vec<Vec<char>>, locals: &VarTable, env: &VarTable) -> (r: Option<
    Vec<Stage>,
>)
    ensures
        match r {
            Some(v) => stages_of(views_of(segs@), locals@, env@) == Some(stages_view(v@)),
            None => stages_of(views_of(segs@), locals@, env@) is None,
        },
{
    let ghost sv = views_of(segs@);
    let n = segs.len();
    let mut i: usize = 0;
    let mut acc: Vec<Stage> = Vec::new();
    proof {
        assert(sv.take(0) =~= Seq::<Seq<char>>::empty());
        assert(stages_view(acc@) =~= Seq::<StageSpec>::empty());
    }
    while i < n
        invariant
            i <= n,
            n == segs@.len(),
            sv == views_of(segs@),
            stages_of(sv.take(i as int), locals@, env@) == Some(stages_view(acc@)),
        decreases n - i,
    {
        proof {
            assert(sv.take(i + 1).drop_last() =~= sv.take(i as int));
            assert(sv.take(i + 1).last() == sv[i as int]);
        }
        match build_stage(&segs[i], locals, env) {
            Ok(Some(st)) => {
                let ghost old_acc = stages_view(acc@);
                acc.push(st);
                proof {
                    assert(stages_view(acc@) =~= old_acc.push(stage_view(acc@.last())));
                }
            },
            Ok(None) => {},
            Err(()) => {
                proof {
                    lemma_bad_segment_poisons(sv, i as int, locals@, env@);
                }
                return None;
            },
        }
        i = i + 1;
    }
    proof {
        assert(sv.take(n as int) =~= sv);
    }
    Some(acc)
}

proof fn lemma_bad_segment_poisons(
    segs: Seq<Seq<char>>,
    i: int,
    locals: Seq<(Seq<char>, Seq<char>)>,
    env: Seq<(Seq<char>, Seq<char>)>,
)
    requires
        0 <= i < segs.len(),
        stage_of(segs[i], locals, env) == SegOutcome::Bad,
    ensures
        stages_of(segs, locals, env) is None,
    decreases segs.len(),
{
    if segs.len() > 0 {
        if i == segs.len() - 1 {
        } else {
            lemma_bad_segment_poisons(segs.drop_last(), i, locals, env);
        }
    }
}

/// Where a stage's standard input comes from.
pub enum StdinSource {
    /// The shell's own standard input.
    Inherit,
    /// A redirected file.
    FromFile(String),
    /// The pipe from the previous stage.
    FromPipe,
}

/// Where a stage's standard output or standard error goes.
pub enum OutputSink {
    /// The shell's own stream.
    Inherit,
    /// A redirected file; `true` appends, `false` truncates.
    ToFile(String, bool),
    /// The pipe to the next stage.
    ToPipe,
}

/// The planned wiring of one stage's three standard streams.
pub struct StageWiring {
    pub stdin: StdinSource,
    pub stdout: OutputSink,
    pub stderr: OutputSink,
}

/// The specification-level form of a stage's input source.
pub enum SourceSpec {
    Inherit,
    FromFile(Seq<char>),
    FromPipe,
}

/// The specification-level form of a stage's output sink.
pub enum SinkSpec {
    Inherit,
    ToFile(Seq<char>, bool),
    ToPipe,
}

/// The specification-level wiring of one stage.
pub struct WiringSpec {
    pub stdin: SourceSpec,
    pub stdout: SinkSpec,
    pub stderr: SinkSpec,
}

/// The view of an input source.
pub open spec fn source_view(s: StdinSource) -> SourceSpec {
    match s {
        StdinSource::Inherit => SourceSpec::Inherit,
        StdinSource::FromFile(p) => SourceSpec::FromFile(p@),
        StdinSource::FromPipe => SourceSpec::FromPipe,
    }
}

/// The view of an output sink.
pub open spec fn sink_view(s: OutputSink) -> SinkSpec {
    match s {
        OutputSink::Inherit => SinkSpec::Inherit,
        OutputSink::ToFile(p, a) => SinkSpec::ToFile(p@, a),
        OutputSink::ToPipe => SinkSpec::ToPipe,
    }
}

/// The view of one stage's wiring.
pub open spec fn wiring_view(w: StageWiring) -> WiringSpec {
    WiringSpec {
        stdin: source_view(w.stdin),
        stdout: sink_view(w.stdout),
        stderr: sink_view(w.stderr),
    }
}

/// The wiring stage `i` of the stage list must get: interior connections
/// are pipes; a file redirection is honored only on the first stage's input
/// and the last stage's outputs; everything else is inherited.
pub open spec fn spec_wiring(ss: Seq<StageSpec>, i: int) -> WiringSpec
    recommends
        0 <= i < ss.len(),
{
    let st = resolve(ss[i].redirs);
    WiringSpec {
        stdin: if i > 0 {
            SourceSpec::FromPipe
        } else {
            match st.stdin {
                Some(p) => SourceSpec::FromFile(p),
                None => SourceSpec::Inherit,
            }
        },
        stdout: if i + 1 < ss.len() {
            SinkSpec::ToPipe
        } else {
            match st.stdout {
                Some((p, a)) => SinkSpec::ToFile(p, a),
                None => SinkSpec::Inherit,
            }
        },
        stderr: if i + 1 == ss.len() {
            match st.stderr {
                Some((p, a)) => SinkSpec::ToFile(p, a),
                None => SinkSpec::Inherit,
            }
        } else {
            SinkSpec::Inherit
        },
    }
}

/// Plans the stream wiring of every stage of a pipeline.
pub fn plan_wiring(p: &Pipeline) -> (w: Vec<StageWiring>)
    ensures
        w@.len() == p.stages@.len(),
        forall|i: int|
            0 <= i < w@.len() ==> wiring_view(w@[i]) == spec_wiring(stages_view(p.stages@), i),
{
    let n = p.stages.len();
    let mut w: Vec<StageWiring> = Vec::new();
    let mut i: usize = 0;
    while i < n
        invariant
            i <= n,
            n == p.stages@.len(),
            w@.len() == i,
            forall|k: int|
                0 <= k < i ==> wiring_view(w@[k]) == spec_wiring(stages_view(p.stages@), k),
        decreases n - i,
    {
        let st = resolve_streams(&p.stages[i].redirs);
        let stdin = if i > 0 {
            StdinSource::FromPipe
        } else {
            match st.stdin {
                Some(f) => StdinSource::FromFile(f),
                None => StdinSource::Inherit,
            }
        };
        let stdout = if i + 1 < n {
            OutputSink::ToPipe
        } else {
            match st.stdout {
                Some((f, a)) => OutputSink::ToFile(f, a),
                None => OutputSink::Inherit,
            }
        };
        let stderr = if i + 1 == n {
            match st.stderr {
                Some((f, a)) => OutputSink::ToFile(f, a),
                None => OutputSink::Inherit,
            }
        } else {
            OutputSink::Inherit
        };
        w.push(StageWiring { stdin, stdout, stderr });
        i = i + 1;
    }
    w
}

/// Interior stream connections are always inter-process pipes: every stage
/// but the first reads the pipe from its predecessor, and every stage but
/// the last writes the pipe to its successor, so each stage's input is
/// exactly its predecessor's output.
pub proof fn lemma_pipe_wiring(ss: Seq<StageSpec>, i: int)
    requires
        0 <= i < ss.len(),
    ensures
        i > 0 ==> spec_wiring(ss, i).stdin == SourceSpec::FromPipe,
        i + 1 < ss.len() ==> spec_wiring(ss, i).stdout == SinkSpec::ToPipe,
        i + 1 < ss.len() ==> spec_wiring(ss, i).stderr == SinkSpec::Inherit,
{
}

} // verus!
