//! Redirection directives: recognizing the operator tokens `<`, `>`, `>>`,
//! `2>`, `2>>`, `&>`, `&>>`, consuming the token after each as its target
//! path, and resolving several directives on one stream so that the last
//! one wins. An operator with no token after it makes the segment
//! ill-formed and the whole command line is discarded.

use vstd::prelude::*;
use crate::chars::chars_eq_str;
use crate::chars::chars_to_string;
use crate::tokenize::views_of;

verus! {

/// A file-based override of one stage's standard streams.
pub enum Redirection {
    /// `< path`: standard input from a file.
    StdinFrom(String),
    /// `> path` or `>> path`: standard output to a file; `true` appends.
    StdoutTo(String, bool),
    /// `2> path` or `2>> path`: standard error to a file; `true` appends.
    StderrTo(String, bool),
    /// `&> path` or `&>> path`: both output streams to a file; `true` appends.
    StdoutAndStderrTo(String, bool),
}

/// The specification-level form of a directive, over character sequences.
pub enum RedirSpec {
    In(Seq<char>),
    Out(Seq<char>, bool),
    ErrTo(Seq<char>, bool),
    Both(Seq<char>, bool),
}

/// The view of one directive.
pub open spec fn redir_view(r: Redirection) -> RedirSpec {
    match r {
        Redirection::StdinFrom(p) => RedirSpec::In(p@),
        Redirection::StdoutTo(p, a) => RedirSpec::Out(p@, a),
        Redirection::StderrTo(p, a) => RedirSpec::ErrTo(p@, a),
        Redirection::StdoutAndStderrTo(p, a) => RedirSpec::Both(p@, a),
    }
}

/// The views of a directive list.
pub open spec fn rviews(rs: Seq<Redirection>) -> Seq<RedirSpec> {
    Seq::new(rs.len(), |i: int| redir_view(rs[i]))
}

/// The kind of redirection an operator token stands for.
pub enum OpKind {
    OpIn,
    OpOut(bool),
    OpErr(bool),
    OpBoth(bool),
}

/// Which operator, if any, a token is.
pub open spec fn op_of(t: Seq<char>) -> Option<OpKind> {
    if t == "<"@ {
        Some(OpKind::OpIn)
    } else if t == ">"@ {
        Some(OpKind::OpOut(false))
    } else if t == ">>"@ {
        Some(OpKind::OpOut(true))
    } else if t == "2>"@ {
        Some(OpKind::OpErr(false))
    } else if t == "2>>"@ {
        Some(OpKind::OpErr(true))
    } else if t == "&>"@ {
        Some(OpKind::OpBoth(false))
    } else if t == "&>>"@ {
        Some(OpKind::OpBoth(true))
    } else {
        None
    }
}

/// Executable form of `op_of`.
pub fn classify_op(t: &Vec<char>) -> (r: Option<OpKind>)
    ensures
        r == op_of(t@),
{
    if chars_eq_str(t, "<") {
        Some(OpKind::OpIn)
    } else if chars_eq_str(t, ">") {
        Some(OpKind::OpOut(false))
    } else if chars_eq_str(t, ">>") {
        Some(OpKind::OpOut(true))
    } else if chars_eq_str(t, "2>") {
        Some(OpKind::OpErr(false))
    } else if chars_eq_str(t, "2>>") {
        Some(OpKind::OpErr(true))
    } else if chars_eq_str(t, "&>") {
        Some(OpKind::OpBoth(false))
    } else if chars_eq_str(t, "&>>") {
        Some(OpKind::OpBoth(true))
    } else {
        None
    }
}

/// The directive an operator of kind `k` with target `path` stands for.
pub open spec fn mk_redir_spec(k: OpKind, path: Seq<char>) -> RedirSpec {
    match k {
        OpKind::OpIn => RedirSpec::In(path),
        OpKind::OpOut(a) => RedirSpec::Out(path, a),
        OpKind::OpErr(a) => RedirSpec::ErrTo(path, a),
        OpKind::OpBoth(a) => RedirSpec::Both(path, a),
    }
}

fn mk_redir(k: &OpKind, path: &Vec<char>) -> (r: Redirection)
    ensures
        redir_view(r) == mk_redir_spec(*k, path@),
{
    match k {
        OpKind::OpIn => Redirection::StdinFrom(chars_to_string(path)),
        OpKind::OpOut(a) => Redirection::StdoutTo(chars_to_string(path), *a),
        OpKind::OpErr(a) => Redirection::StderrTo(chars_to_string(path), *a),
        OpKind::OpBoth(a) => Redirection::StdoutAndStderrTo(chars_to_string(path), *a),
    }
}

/// The argument words and directives of a token list, from position `i` on;
/// `None` when an operator has no token after it.
pub struct ExtractedSpec {
    pub args: Seq<Seq<char>>,
    pub redirs: Seq<RedirSpec>,
}

pub open spec fn extract_from(
    toks: Seq<Seq<char>>,
    i: int,
    args: Seq<Seq<char>>,
    redirs: Seq<RedirSpec>,
) -> Option<ExtractedSpec>
    decreases toks.len() - i,
{
    if !(0 <= i <= toks.len()) {
        None
    } else if i == toks.len() {
        Some(ExtractedSpec { args, redirs })
    } else {
        match op_of(toks[i]) {
            Some(k) => if i + 1 == toks.len() {
                None
            } else {
                extract_from(toks, i + 2, args, redirs.push(mk_redir_spec(k, toks[i + 1])))
            },
            None => extract_from(toks, i + 1, args.push(toks[i]), redirs),
        }
    }
}

/// Splits a token list into argument words and redirection directives.
pub open spec fn extract(toks: Seq<Seq<char>>) -> Option<ExtractedSpec> {
    extract_from(toks, 0, Seq::empty(), Seq::empty())
}

/// The executable split: arguments stay as character vectors for later
/// expansion; directives carry their target paths as strings.
pub struct Extracted {
    pub args: Vec<Vec<char>>,
    pub redirs: Vec<Redirection>,
}

/// Splits a token list into argument words and redirection directives;
/// `None` reports an operator with no token after it.
pub fn extract_redirections(toks: &Vec<Vec<char>>) -> (r: Option<Extracted>)
    ensures
        match r {
            Some(ex) => extract(views_of(toks@)) == Some(
                ExtractedSpec { args: views_of(ex.args@), redirs: rviews(ex.redirs@) },
            ),
            None => extract(views_of(toks@)) is None,
        },
{
    let ghost tv = views_of(toks@);
    let n = toks.len();
    let mut i: usize = 0;
    let mut args: Vec<Vec<char>> = Vec::new();
    let mut redirs: Vec<Redirection> = Vec::new();
    proof {
        assert(views_of(args@) =~= Seq::<Seq<char>>::empty());
        assert(rviews(redirs@) =~= Seq::<RedirSpec>::empty());
    }
    while i < n
        invariant
            i <= n,
            n == tv.len(),
            tv == views_of(toks@),
            extract_from(tv, i as int, views_of(args@), rviews(redirs@)) == extract(tv),
        decreases n - i,
    {
        match classify_op(&toks[i]) {
            Some(k) => {
                if i + 1 == n {
                    return None;
                }
                let ghost old_redirs = rviews(redirs@);
                redirs.push(mk_redir(&k, &toks[i + 1]));
                proof {
                    assert(rviews(redirs@) =~= old_redirs.push(redir_view(redirs@.last())));
                }
                i = i + 2;
            },
            None => {
                let ghost old_args = views_of(args@);
                args.push(toks[i].clone());
                proof {
                    assert(views_of(args@) =~= old_args.push(args@.last()@));
                }
                i = i + 1;
            },
        }
    }
    Some(Extracted { args, redirs })
}

/// The effective per-stream targets after every directive of a stage has
/// been applied in order.
pub struct StreamsSpec {
    pub stdin: Option<Seq<char>>,
    pub stdout: Option<(Seq<char>, bool)>,
    pub stderr: Option<(Seq<char>, bool)>,
}

/// One directive applied to the targets resolved so far.
pub open spec fn resolve_step(r: RedirSpec, cur: StreamsSpec) -> StreamsSpec {
    match r {
        RedirSpec::In(p) => StreamsSpec { stdin: Some(p), ..cur },
        RedirSpec::Out(p, a) => StreamsSpec { stdout: Some((p, a)), ..cur },
        RedirSpec::ErrTo(p, a) => StreamsSpec { stderr: Some((p, a)), ..cur },
        RedirSpec::Both(p, a) => StreamsSpec { stdout: Some((p, a)), stderr: Some((p, a)), ..cur },
    }
}

pub open spec fn resolve_from(rs: Seq<RedirSpec>, i: int, cur: StreamsSpec) -> StreamsSpec
    decreases rs.len() - i,
{
    if !(0 <= i < rs.len()) {
        cur
    } else {
        resolve_from(rs, i + 1, resolve_step(rs[i], cur))
    }
}

/// The per-stream targets of a directive list: the last directive on a
/// stream wins.
pub open spec fn resolve(rs: Seq<RedirSpec>) -> StreamsSpec {
    resolve_from(
        rs,
        0,
        StreamsSpec { stdin: None, stdout: None, stderr: None },
    )
}

/// The executable per-stream targets.
pub struct Streams {
    pub stdin: Option<String>,
    pub stdout: Option<(String, bool)>,
    pub stderr: Option<(String, bool)>,
}

pub open spec fn streams_view(s: Streams) -> StreamsSpec {
    StreamsSpec {
        stdin: match s.stdin {
            Some(p) => Some(p@),
            None => None,
        },
        stdout: match s.stdout {
            Some((p, a)) => Some((p@, a)),
            None => None,
        },
        stderr: match s.stderr {
            Some((p, a)) => Some((p@, a)),
            None => None,
        },
    }
}

/// Applies a stage's directives in order, later ones shadowing earlier
/// ones on the same stream.
pub fn resolve_streams(redirs: &Vec<Redirection>) -> (r: Streams)
    ensures
        streams_view(r) == resolve(rviews(redirs@)),
{
    let n = redirs.len();
    let mut i: usize = 0;
    let mut cur = Streams { stdin: None, stdout: None, stderr: None };
    while i < n
        invariant
            i <= n,
            n == redirs@.len(),
            resolve_from(rviews(redirs@), i as int, streams_view(cur)) == resolve(
                rviews(redirs@),
            ),
        decreases n - i,
    {
        match &redirs[i] {
            Redirection::StdinFrom(p) => {
                cur.stdin = Some(p.clone());
            },
            Redirection::StdoutTo(p, a) => {
                cur.stdout = Some((p.clone(), *a));
            },
            Redirection::StderrTo(p, a) => {
                cur.stderr = Some((p.clone(), *a));
            },
            Redirection::StdoutAndStderrTo(p, a) => {
                cur.stdout = Some((p.clone(), *a));
                cur.stderr = Some((p.clone(), *a));
            },
        }
        i = i + 1;
    }
    cur
}

proof fn lemma_resolve_from_snoc(rs: Seq<RedirSpec>, x: RedirSpec, i: int, cur: StreamsSpec)
    requires
        0 <= i <= rs.len(),
    ensures
        resolve_from(rs.push(x), i, cur) == resolve_step(x, resolve_from(rs, i, cur)),
    decreases rs.len() - i,
{
    if i == rs.len() {
        assert(rs.push(x)[i] == x);
        assert(resolve_from(rs.push(x), i + 1, resolve_step(x, cur)) == resolve_step(x, cur));
    } else {
        assert(rs.push(x)[i] == rs[i]);
        lemma_resolve_from_snoc(rs, x, i + 1, resolve_step(rs[i], cur));
    }
}

/// When several directives target standard output, the last one gives the
/// file and the append mode; in particular a final `>` truncates and a
/// final `>>` appends, whatever came before.
pub proof fn lemma_last_output_wins(rs: Seq<RedirSpec>, p: Seq<char>, a: bool)
    ensures
        resolve(rs.push(RedirSpec::Out(p, a))).stdout == Some((p, a)),
{
    lemma_resolve_from_snoc(
        rs,
        RedirSpec::Out(p, a),
        0,
        StreamsSpec { stdin: None, stdout: None, stderr: None },
    );
}

proof fn lemma_no_ops_tail(
    toks: Seq<Seq<char>>,
    i: int,
    args: Seq<Seq<char>>,
    redirs: Seq<RedirSpec>,
)
    requires
        0 <= i <= toks.len(),
        forall|k: int| i <= k < toks.len() ==> op_of(toks[k]) is None,
    ensures
        extract_from(toks, i, args, redirs) == Some(
            ExtractedSpec { args: args + toks.skip(i), redirs },
        ),
    decreases toks.len() - i,
{
    if i == toks.len() {
        assert(args + toks.skip(i) =~= args);
    } else {
        lemma_no_ops_tail(toks, i + 1, args.push(toks[i]), redirs);
        assert(args.push(toks[i]) + toks.skip(i + 1) =~= args + toks.skip(i));
    }
}

/// A token list with no redirection operator extracts to exactly itself:
/// every word is an argument and there are no directives.
pub proof fn lemma_no_ops_extract(toks: Seq<Seq<char>>)
    requires
        forall|k: int| 0 <= k < toks.len() ==> op_of(toks[k]) is None,
    ensures
        extract(toks) == Some(ExtractedSpec { args: toks, redirs: Seq::empty() }),
{
    lemma_no_ops_tail(toks, 0, Seq::empty(), Seq::empty());
    assert(Seq::<Seq<char>>::empty() + toks.skip(0) =~= toks);
}

proof fn lemma_trailing_op_fails(
    toks: Seq<Seq<char>>,
    i: int,
    args: Seq<Seq<char>>,
    redirs: Seq<RedirSpec>,
)
    requires
        0 <= i < toks.len(),
        op_of(toks.last()) is Some,
        forall|k: int| 0 <= k < toks.len() - 1 ==> op_of(toks[k]) is None,
    ensures
        extract_from(toks, i, args, redirs) is None,
    decreases toks.len() - i,
{
    if i < toks.len() - 1 {
        lemma_trailing_op_fails(toks, i + 1, args.push(toks[i]), redirs);
    }
}

/// A redirection operator with no token after it makes extraction fail:
/// the command is discarded rather than partially executed.
pub proof fn lemma_missing_path_is_error(toks: Seq<Seq<char>>)
    requires
        toks.len() > 0,
        op_of(toks.last()) is Some,
        forall|k: int| 0 <= k < toks.len() - 1 ==> op_of(toks[k]) is None,
    ensures
        extract(toks) is None,
{
    lemma_trailing_op_fails(toks, 0, Seq::empty(), Seq::empty());
}

} // verus!
