//! Word splitting for one pipe segment: whitespace separates words, single
//! quotes take everything literally, double quotes allow backslash escapes,
//! and a backslash outside quotes escapes the next character. An unclosed
//! quote or a trailing backslash makes the whole segment ill-formed.

use vstd::prelude::*;
use crate::chars::is_space;
use crate::chars::is_space_char;

verus! {

/// The tokenizer's mode after reading a prefix of the segment.
pub enum TokMode {
    /// Between words.
    Delim,
    /// Inside a word, outside any quote.
    Word,
    /// Inside single quotes.
    Single,
    /// Inside double quotes.
    Double,
    /// After a backslash outside quotes.
    EscWord,
    /// After a backslash inside double quotes.
    EscDouble,
}

/// The words of `s` from position `i` on, given the mode, the word read so
/// far and the words already finished; `None` when a quote or escape is
/// left open at the end of the segment.
pub open spec fn tok_from(
    s: Seq<char>,
    i: int,
    mode: TokMode,
    cur: Seq<char>,
    acc: Seq<Seq<char>>,
) -> Option<Seq<Seq<char>>>
    decreases s.len() - i,
{
    if !(0 <= i <= s.len()) {
        None
    } else if i == s.len() {
        match mode {
            TokMode::Delim => Some(acc),
            TokMode::Word => Some(acc.push(cur)),
            _ => None,
        }
    } else {
        let c = s[i];
        match mode {
            TokMode::Delim => if is_space(c) {
                tok_from(s, i + 1, TokMode::Delim, cur, acc)
            } else if c == '\'' {
                tok_from(s, i + 1, TokMode::Single, cur, acc)
            } else if c == '"' {
                tok_from(s, i + 1, TokMode::Double, cur, acc)
            } else if c == '\\' {
                tok_from(s, i + 1, TokMode::EscWord, cur, acc)
            } else {
                tok_from(s, i + 1, TokMode::Word, cur.push(c), acc)
            },
            TokMode::Word => if is_space(c) {
                tok_from(s, i + 1, TokMode::Delim, Seq::empty(), acc.push(cur))
            } else if c == '\'' {
                tok_from(s, i + 1, TokMode::Single, cur, acc)
            } else if c == '"' {
                tok_from(s, i + 1, TokMode::Double, cur, acc)
            } else if c == '\\' {
                tok_from(s, i + 1, TokMode::EscWord, cur, acc)
            } else {
                tok_from(s, i + 1, TokMode::Word, cur.push(c), acc)
            },
            TokMode::Single => if c == '\'' {
                tok_from(s, i + 1, TokMode::Word, cur, acc)
            } else {
                tok_from(s, i + 1, TokMode::Single, cur.push(c), acc)
            },
            TokMode::Double => if c == '"' {
                tok_from(s, i + 1, TokMode::Word, cur, acc)
            } else if c == '\\' {
                tok_from(s, i + 1, TokMode::EscDouble, cur, acc)
            } else {
                tok_from(s, i + 1, TokMode::Double, cur.push(c), acc)
            },
            TokMode::EscWord => tok_from(s, i + 1, TokMode::Word, cur.push(c), acc),
            TokMode::EscDouble => tok_from(s, i + 1, TokMode::Double, cur.push(c), acc),
        }
    }
}

/// The words of a whole segment; `None` on an unclosed quote or escape.
pub open spec fn tokens_of(s: Seq<char>) -> Option<Seq<Seq<char>>> {
    tok_from(s, 0, TokMode::Delim, Seq::empty(), Seq::empty())
}

proof fn lemma_unquoted_tail_tokenizes(
    s: Seq<char>,
    i: int,
    mode: TokMode,
    cur: Seq<char>,
    acc: Seq<Seq<char>>,
)
    requires
        0 <= i <= s.len(),
        mode is Delim || mode is Word,
        forall|k: int| i <= k < s.len() ==> s[k] != '\'' && s[k] != '"' && s[k] != '\\',
    ensures
        tok_from(s, i, mode, cur, acc) is Some,
    decreases s.len() - i,
{
    if i < s.len() {
        let c = s[i];
        if is_space(c) {
            match mode {
                TokMode::Delim => lemma_unquoted_tail_tokenizes(s, i + 1, TokMode::Delim, cur, acc),
                TokMode::Word => lemma_unquoted_tail_tokenizes(
                    s,
                    i + 1,
                    TokMode::Delim,
                    Seq::empty(),
                    acc.push(cur),
                ),
                _ => {},
            }
        } else {
            lemma_unquoted_tail_tokenizes(s, i + 1, TokMode::Word, cur.push(c), acc);
        }
    }
}

/// A segment without quotes or backslashes always tokenizes: an ill-formed
/// segment can only come from an unclosed quote or a trailing escape.
pub proof fn lemma_unquoted_always_tokenizes(s: Seq<char>)
    requires
        forall|k: int| 0 <= k < s.len() ==> s[k] != '\'' && s[k] != '"' && s[k] != '\\',
    ensures
        tokens_of(s) is Some,
{
    lemma_unquoted_tail_tokenizes(s, 0, TokMode::Delim, Seq::empty(), Seq::empty());
}

/// The views of a vector of character vectors.
pub open spec fn views_of(ts: Seq<Vec<char>>) -> Seq<Seq<char>> {
    Seq::new(ts.len(), |i: int| ts[i]@)
}

/// Splits one segment into words; `None` reports the ill-formed segment.
pub fn tokenize(s: &Vec<char>) -> (r: Option<Vec<Vec<char>>>)
    ensures
        match r {
            Some(ts) => tokens_of(s@) == Some(views_of(ts@)),
            None => tokens_of(s@) is None,
        },
{
    let n = s.len();
    let mut i: usize = 0;
    let mut mode = TokMode::Delim;
    let mut cur: Vec<char> = Vec::new();
    let mut acc: Vec<Vec<char>> = Vec::new();
    proof {
        assert(views_of(acc@) =~= Seq::<Seq<char>>::empty());
        assert(cur@ =~= Seq::<char>::empty());
    }
    while i < n
        invariant
            i <= n,
            n == s@.len(),
            tok_from(s@, i as int, mode, cur@, views_of(acc@)) == tokens_of(s@),
        decreases n - i,
    {
        let c = s[i];
        let ghost old_acc = views_of(acc@);
        match mode {
            TokMode::Delim => {
                if is_space_char(c) {
                    // stay between words
                } else if c == '\'' {
                    mode = TokMode::Single;
                } else if c == '"' {
                    mode = TokMode::Double;
                } else if c == '\\' {
                    mode = TokMode::EscWord;
                } else {
                    mode = TokMode::Word;
                    cur.push(c);
                }
            },
            TokMode::Word => {
                if is_space_char(c) {
                    mode = TokMode::Delim;
                    acc.push(cur);
                    cur = Vec::new();
                    assert(views_of(acc@) =~= old_acc.push(acc@.last()@));
                } else if c == '\'' {
                    mode = TokMode::Single;
                } else if c == '"' {
                    mode = TokMode::Double;
                } else if c == '\\' {
                    mode = TokMode::EscWord;
                } else {
                    cur.push(c);
                }
            },
            TokMode::Single => {
                if c == '\'' {
                    mode = TokMode::Word;
                } else {
                    cur.push(c);
                }
            },
            TokMode::Double => {
                if c == '"' {
                    mode = TokMode::Word;
                } else if c == '\\' {
                    mode = TokMode::EscDouble;
                } else {
                    cur.push(c);
                }
            },
            TokMode::EscWord => {
                mode = TokMode::Word;
                cur.push(c);
            },
            TokMode::EscDouble => {
                mode = TokMode::Double;
                cur.push(c);
            },
        }
        i = i + 1;
    }
    match mode {
        TokMode::Delim => Some(acc),
        TokMode::Word => {
            let ghost old_acc = views_of(acc@);
            acc.push(cur);
            assert(views_of(acc@) =~= old_acc.push(acc@.last()@));
            Some(acc)
        },
        _ => None,
    }
}

} // verus!
