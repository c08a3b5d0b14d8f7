//! Variable expansion: each `$NAME` inside a word is replaced by the
//! shell-local value if one is bound, else by the process environment's
//! value, else by nothing. The replacement is textual and never re-expanded.

use vstd::prelude::*;
use crate::chars::is_name_char;
use crate::chars::is_name_char_exec;
use vstd::string::StrSliceExecFns;
use crate::vars::VarTable;
use crate::vars::lookup_in;

verus! {

/// What a `$NAME` reference stands for: the local binding first, then the
/// process environment, then the empty string.
pub open spec fn expansion_value(
    locals: Seq<(Seq<char>, Seq<char>)>,
    env: Seq<(Seq<char>, Seq<char>)>,
    name: Seq<char>,
) -> Seq<char> {
    match lookup_in(locals, name) {
        Some(v) => v,
        None => match lookup_in(env, name) {
            Some(v) => v,
            None => Seq::empty(),
        },
    }
}

/// The expander's mode: plain text, or reading the name after a `$`.
pub enum ExpState {
    Text,
    Name(Seq<char>),
}

/// The expansion of `s` from position `i` on, given the mode and the output
/// built so far.
pub open spec fn expand_from(
    s: Seq<char>,
    i: int,
    st: ExpState,
    locals: Seq<(Seq<char>, Seq<char>)>,
    env: Seq<(Seq<char>, Seq<char>)>,
    out: Seq<char>,
) -> Seq<char>
    decreases s.len() - i,
{
    if !(0 <= i <= s.len()) {
        out
    } else if i == s.len() {
        match st {
            ExpState::Text => out,
            ExpState::Name(n) => out + expansion_value(locals, env, n),
        }
    } else {
        let c = s[i];
        match st {
            ExpState::Text => if c == '$' {
                expand_from(s, i + 1, ExpState::Name(Seq::empty()), locals, env, out)
            } else {
                expand_from(s, i + 1, ExpState::Text, locals, env, out.push(c))
            },
            ExpState::Name(n) => if is_name_char(c) {
                expand_from(s, i + 1, ExpState::Name(n.push(c)), locals, env, out)
            } else if c == '$' {
                expand_from(
                    s,
                    i + 1,
                    ExpState::Name(Seq::empty()),
                    locals,
                    env,
                    out + expansion_value(locals, env, n),
                )
            } else {
                expand_from(
                    s,
                    i + 1,
                    ExpState::Text,
                    locals,
                    env,
                    (out + expansion_value(locals, env, n)).push(c),
                )
            },
        }
    }
}

/// The fully expanded form of one word.
pub open spec fn expand_chars(
    s: Seq<char>,
    locals: Seq<(Seq<char>, Seq<char>)>,
    env: Seq<(Seq<char>, Seq<char>)>,
) -> Seq<char> {
    expand_from(s, 0, ExpState::Text, locals, env, Seq::empty())
}

/// Appends the characters of a string to a character vector.
fn append_str(out: &mut Vec<char>, v: &str)
    ensures
        final(out)@ == old(out)@ + v@,
{
    let n = v.unicode_len();
    let mut i: usize = 0;
    while i < n
        invariant
            i <= n,
            n == v@.len(),
            out@ == old(out)@ + v@.take(i as int),
        decreases n - i,
    {
        out.push(v.get_char(i));
        assert(out@ =~= old(out)@ + v@.take(i + 1));
        i = i + 1;
    }
    assert(out@ =~= old(out)@ + v@);
}

/// Appends what `$name` stands for.
fn append_value(out: &mut Vec<char>, name: &Vec<char>, locals: &VarTable, env: &VarTable)
    ensures
        final(out)@ == old(out)@ + expansion_value(locals@, env@, name@),
{
    match locals.get(name) {
        Some(v) => append_str(out, v.as_str()),
        None => match env.get(name) {
            Some(v) => append_str(out, v.as_str()),
            None => {
                assert(out@ =~= out@ + Seq::<char>::empty());
            },
        },
    }
}

/// Expands every `$NAME` reference in one word.
pub fn expand(s: &Vec<char>, locals: &VarTable, env: &VarTable) -> (r: Vec<char>)
    ensures
        r@ == expand_chars(s@, locals@, env@),
{
    let n = s.len();
    let mut i: usize = 0;
    let mut in_name: bool = false;
    let mut nm: Vec<char> = Vec::new();
    let mut out: Vec<char> = Vec::new();
    proof {
        assert(out@ =~= Seq::<char>::empty());
    }
    while i < n
        invariant
            i <= n,
            n == s@.len(),
            expand_from(
                s@,
                i as int,
                if in_name {
                    ExpState::Name(nm@)
                } else {
                    ExpState::Text
                },
                locals@,
                env@,
                out@,
            ) == expand_chars(s@, locals@, env@),
        decreases n - i,
    {
        let c = s[i];
        if in_name {
            if is_name_char_exec(c) {
                nm.push(c);
            } else if c == '$' {
                append_value(&mut out, &nm, locals, env);
                nm = Vec::new();
                proof {
                    assert(nm@ =~= Seq::<char>::empty());
                }
            } else {
                append_value(&mut out, &nm, locals, env);
                out.push(c);
                in_name = false;
            }
        } else {
            if c == '$' {
                in_name = true;
                nm = Vec::new();
                proof {
                    assert(nm@ =~= Seq::<char>::empty());
                }
            } else {
                out.push(c);
            }
        }
        i = i + 1;
    }
    if in_name {
        append_value(&mut out, &nm, locals, env);
    }
    out
}

/// A name bound in the local table expands to the local value, whatever the
/// process environment binds it to.
pub proof fn lemma_local_precedence(
    locals: Seq<(Seq<char>, Seq<char>)>,
    env: Seq<(Seq<char>, Seq<char>)>,
    name: Seq<char>,
    v: Seq<char>,
)
    requires
        lookup_in(locals, name) == Some(v),
    ensures
        expansion_value(locals, env, name) == v,
{
}

proof fn lemma_expand_name_tail(
    s: Seq<char>,
    i: int,
    pre: Seq<char>,
    locals: Seq<(Seq<char>, Seq<char>)>,
    env: Seq<(Seq<char>, Seq<char>)>,
    out: Seq<char>,
)
    requires
        0 <= i <= s.len(),
        forall|k: int| i <= k < s.len() ==> is_name_char(s[k]),
    ensures
        expand_from(s, i, ExpState::Name(pre), locals, env, out) == out + expansion_value(
            locals,
            env,
            pre + s.skip(i),
        ),
    decreases s.len() - i,
{
    if i == s.len() {
        assert(pre + s.skip(i) =~= pre);
    } else {
        lemma_expand_name_tail(s, i + 1, pre.push(s[i]), locals, env, out);
        assert(pre.push(s[i]) + s.skip(i + 1) =~= pre + s.skip(i));
    }
}

/// A word that is a `$` followed by a well-formed name expands to exactly
/// what that name stands for, local table first.
pub proof fn lemma_dollar_name_expands(
    n: Seq<char>,
    locals: Seq<(Seq<char>, Seq<char>)>,
    env: Seq<(Seq<char>, Seq<char>)>,
)
    requires
        forall|k: int| 0 <= k < n.len() ==> is_name_char(n[k]),
    ensures
        expand_chars(seq!['$'] + n, locals, env) == expansion_value(locals, env, n),
{
    let s = seq!['$'] + n;
    assert(s[0] == '$');
    lemma_expand_name_tail(s, 1, Seq::empty(), locals, env, Seq::empty());
    assert(Seq::<char>::empty() + s.skip(1) =~= n);
    assert(Seq::<char>::empty() + expansion_value(locals, env, n) =~= expansion_value(
        locals,
        env,
        n,
    ));
}

} // verus!
