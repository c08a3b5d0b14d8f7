use vssh::chars::{str_chars, sub_chars, trim_end};
use vssh::expand::expand;
use vssh::pipeline::split_on_pipes;
use vssh::redirect::{extract_redirections, resolve_streams, Redirection};
use vssh::tokenize::tokenize;
use vssh::vars::VarTable;

fn chars(s: &str) -> Vec<char> {
    str_chars(s)
}

fn toks(s: &str) -> Vec<Vec<char>> {
    tokenize(&chars(s)).expect("segment should tokenize")
}

fn word(s: &str) -> String {
    s.to_string()
}

#[test]
fn tokenize_plain_words() {
    assert_eq!(toks("echo hello world"), vec![chars("echo"), chars("hello"), chars("world")]);
}

#[test]
fn tokenize_collapses_whitespace() {
    assert_eq!(toks("  ls \t -l  "), vec![chars("ls"), chars("-l")]);
}

#[test]
fn tokenize_empty_line_has_no_words() {
    assert_eq!(toks(""), Vec::<Vec<char>>::new());
    assert_eq!(toks("   \t "), Vec::<Vec<char>>::new());
}

#[test]
fn tokenize_double_quotes_keep_spaces() {
    assert_eq!(toks("echo \"a b\" c"), vec![chars("echo"), chars("a b"), chars("c")]);
}

#[test]
fn tokenize_single_quotes_are_literal() {
    assert_eq!(toks("echo 'a \"b\" c'"), vec![chars("echo"), chars("a \"b\" c")]);
}

#[test]
fn tokenize_backslash_escapes_space() {
    assert_eq!(toks("touch a\\ b"), vec![chars("touch"), chars("a b")]);
}

#[test]
fn tokenize_escape_inside_double_quotes() {
    assert_eq!(toks("echo \"a\\\"b\""), vec![chars("echo"), chars("a\"b")]);
}

#[test]
fn tokenize_empty_quotes_make_empty_word() {
    assert_eq!(toks("echo \"\""), vec![chars("echo"), chars("")]);
}

#[test]
fn tokenize_quotes_join_into_one_word() {
    assert_eq!(toks("a\"b c\"d"), vec![chars("ab cd")]);
}

#[test]
fn tokenize_unclosed_double_quote_fails() {
    assert!(tokenize(&chars("echo \"abc")).is_none());
}

#[test]
fn tokenize_unclosed_single_quote_fails() {
    assert!(tokenize(&chars("echo 'abc")).is_none());
}

#[test]
fn tokenize_trailing_backslash_fails() {
    assert!(tokenize(&chars("echo abc\\")).is_none());
}

#[test]
fn extract_input_and_output_redirections() {
    let ex = extract_redirections(&toks("sort < in.txt > out.txt")).unwrap();
    assert_eq!(ex.args, vec![chars("sort")]);
    assert_eq!(ex.redirs.len(), 2);
    assert!(matches!(&ex.redirs[0], Redirection::StdinFrom(p) if p == "in.txt"));
    assert!(matches!(&ex.redirs[1], Redirection::StdoutTo(p, false) if p == "out.txt"));
}

#[test]
fn extract_append_and_error_redirections() {
    let ex = extract_redirections(&toks("cmd >> log 2> err 2>> err2")).unwrap();
    assert_eq!(ex.args, vec![chars("cmd")]);
    assert!(matches!(&ex.redirs[0], Redirection::StdoutTo(p, true) if p == "log"));
    assert!(matches!(&ex.redirs[1], Redirection::StderrTo(p, false) if p == "err"));
    assert!(matches!(&ex.redirs[2], Redirection::StderrTo(p, true) if p == "err2"));
}

#[test]
fn extract_combined_redirection() {
    let ex = extract_redirections(&toks("cmd &> all.log")).unwrap();
    assert!(matches!(&ex.redirs[0], Redirection::StdoutAndStderrTo(p, false) if p == "all.log"));
    let ex2 = extract_redirections(&toks("cmd &>> all.log")).unwrap();
    assert!(matches!(&ex2.redirs[0], Redirection::StdoutAndStderrTo(p, true) if p == "all.log"));
}

#[test]
fn extract_keeps_argument_order_around_redirections() {
    let ex = extract_redirections(&toks("grep -n foo < in bar")).unwrap();
    assert_eq!(ex.args, vec![chars("grep"), chars("-n"), chars("foo"), chars("bar")]);
}

#[test]
fn extract_missing_path_is_syntax_error() {
    assert!(extract_redirections(&toks("cmd >")).is_none());
    assert!(extract_redirections(&toks("cmd < in >")).is_none());
    assert!(extract_redirections(&toks("2>>")).is_none());
}

#[test]
fn resolve_last_output_redirection_wins() {
    let ex = extract_redirections(&toks("cmd > a >> b")).unwrap();
    let st = resolve_streams(&ex.redirs);
    let (path, append) = st.stdout.unwrap();
    assert_eq!(path, word("b"));
    assert!(append);
    assert!(st.stdin.is_none());
    assert!(st.stderr.is_none());
}

#[test]
fn resolve_combined_sets_both_output_streams() {
    let ex = extract_redirections(&toks("cmd > a &> b")).unwrap();
    let st = resolve_streams(&ex.redirs);
    assert_eq!(st.stdout.unwrap(), (word("b"), false));
    assert_eq!(st.stderr.unwrap(), (word("b"), false));
}

#[test]
fn split_on_pipes_gives_each_segment() {
    let segs = split_on_pipes(&chars("seq 5 | wc -l"));
    assert_eq!(segs, vec![chars("seq 5 "), chars(" wc -l")]);
}

#[test]
fn split_without_pipe_is_one_segment() {
    let segs = split_on_pipes(&chars("echo a"));
    assert_eq!(segs, vec![chars("echo a")]);
}

#[test]
fn trim_end_removes_trailing_whitespace_only() {
    assert_eq!(trim_end(&chars("  a b \t ")), chars("  a b"));
    assert_eq!(trim_end(&chars("")), chars(""));
}

#[test]
fn sub_chars_takes_the_given_range() {
    assert_eq!(sub_chars(&chars("abcdef"), 1, 4), chars("bcd"));
}

#[test]
fn expand_local_value_wins_over_environment() {
    let mut locals = VarTable::new();
    locals.set(word("X"), word("1"));
    let mut env = VarTable::new();
    env.set(word("X"), word("2"));
    assert_eq!(expand(&chars("$X"), &locals, &env), chars("1"));
}

#[test]
fn expand_falls_back_to_environment() {
    let locals = VarTable::new();
    let mut env = VarTable::new();
    env.set(word("HOME"), word("/home/user"));
    assert_eq!(expand(&chars("$HOME/docs"), &locals, &env), chars("/home/user/docs"));
}

#[test]
fn expand_unknown_name_becomes_empty() {
    let locals = VarTable::new();
    let env = VarTable::new();
    assert_eq!(expand(&chars("a$MISSING!b"), &locals, &env), chars("a!b"));
}

#[test]
fn expand_lone_dollar_disappears() {
    let locals = VarTable::new();
    let env = VarTable::new();
    assert_eq!(expand(&chars("a$"), &locals, &env), chars("a"));
}

#[test]
fn expand_underscore_and_digits_belong_to_names() {
    let mut locals = VarTable::new();
    locals.set(word("A_1"), word("ok"));
    let env = VarTable::new();
    assert_eq!(expand(&chars("$A_1."), &locals, &env), chars("ok."));
}

#[test]
fn expand_does_not_recurse() {
    let mut locals = VarTable::new();
    locals.set(word("A"), word("$B"));
    locals.set(word("B"), word("x"));
    let env = VarTable::new();
    assert_eq!(expand(&chars("$A"), &locals, &env), chars("$B"));
}

#[test]
fn expand_adjacent_names() {
    let mut locals = VarTable::new();
    locals.set(word("A"), word("1"));
    locals.set(word("B"), word("2"));
    let env = VarTable::new();
    assert_eq!(expand(&chars("$A$B"), &locals, &env), chars("12"));
}

#[test]
fn var_table_later_assignment_shadows_earlier() {
    let mut t = VarTable::new();
    t.set(word("X"), word("1"));
    t.set(word("X"), word("2"));
    assert_eq!(t.get(&chars("X")), Some(word("2")));
    assert_eq!(t.get(&chars("Y")), None);
}
