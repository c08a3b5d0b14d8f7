use vssh::chars::str_chars;
use vssh::pipeline::{plan_wiring, OutputSink, Pipeline, StdinSource};
use vssh::shell::{Action, CdError, JobState, Shell};
use vssh::vars::VarTable;

fn word(s: &str) -> String {
    s.to_string()
}

fn fresh_shell(dir: &str) -> Shell {
    Shell::new(word(dir))
}

fn empty_env() -> VarTable {
    VarTable::new()
}

fn run_pipeline(shell: &mut Shell, line: &str, env: &VarTable) -> Pipeline {
    match shell.execute_command(line, env) {
        Action::Run(p) => p,
        other => panic!("expected a pipeline for {:?}, state: {:?}", line, describe(&other)),
    }
}

fn describe(a: &Action) -> &'static str {
    match a {
        Action::Done => "Done",
        Action::Output(_) => "Output",
        Action::Cd(_) => "Cd",
        Action::SyntaxError(_) => "SyntaxError",
        Action::Run(_) => "Run",
    }
}

#[test]
fn plain_command_passes_argv_through_untouched() {
    let mut shell = fresh_shell("/home/user");
    let env = empty_env();
    let p = run_pipeline(&mut shell, "echo hello world", &env);
    assert!(!p.background);
    assert_eq!(p.stages.len(), 1);
    assert_eq!(p.stages[0].args, vec![word("echo"), word("hello"), word("world")]);
    assert!(p.stages[0].redirs.is_empty());
    let w = plan_wiring(&p);
    assert!(matches!(w[0].stdin, StdinSource::Inherit));
    assert!(matches!(w[0].stdout, OutputSink::Inherit));
    assert!(matches!(w[0].stderr, OutputSink::Inherit));
    assert_eq!(shell.current_dir, word("/home/user"));
    assert!(shell.running);
}

#[test]
fn two_stage_pipeline_wires_adjacent_stages_together() {
    let mut shell = fresh_shell("/");
    let env = empty_env();
    let p = run_pipeline(&mut shell, "seq 5 | wc -l", &env);
    assert_eq!(p.stages.len(), 2);
    assert_eq!(p.stages[0].args, vec![word("seq"), word("5")]);
    assert_eq!(p.stages[1].args, vec![word("wc"), word("-l")]);
    let w = plan_wiring(&p);
    assert!(matches!(w[0].stdin, StdinSource::Inherit));
    assert!(matches!(w[0].stdout, OutputSink::ToPipe));
    assert!(matches!(w[1].stdin, StdinSource::FromPipe));
    assert!(matches!(w[1].stdout, OutputSink::Inherit));
}

#[test]
fn interior_stage_redirections_yield_to_pipes() {
    let mut shell = fresh_shell("/");
    let env = empty_env();
    let p = run_pipeline(&mut shell, "cat < in | grep x | sort > out", &env);
    assert_eq!(p.stages.len(), 3);
    let w = plan_wiring(&p);
    assert!(matches!(&w[0].stdin, StdinSource::FromFile(f) if f == "in"));
    assert!(matches!(w[0].stdout, OutputSink::ToPipe));
    assert!(matches!(w[1].stdin, StdinSource::FromPipe));
    assert!(matches!(w[1].stdout, OutputSink::ToPipe));
    assert!(matches!(w[2].stdin, StdinSource::FromPipe));
    assert!(matches!(&w[2].stdout, OutputSink::ToFile(f, false) if f == "out"));
}

#[test]
fn truncating_and_appending_redirections_are_told_apart() {
    let mut shell = fresh_shell("/");
    let env = empty_env();
    let p1 = run_pipeline(&mut shell, "echo a > f", &env);
    let w1 = plan_wiring(&p1);
    assert!(matches!(&w1[0].stdout, OutputSink::ToFile(f, false) if f == "f"));
    let p2 = run_pipeline(&mut shell, "echo b >> f", &env);
    let w2 = plan_wiring(&p2);
    assert!(matches!(&w2[0].stdout, OutputSink::ToFile(f, true) if f == "f"));
}

#[test]
fn last_redirection_on_a_stream_wins() {
    let mut shell = fresh_shell("/");
    let env = empty_env();
    let p = run_pipeline(&mut shell, "echo a > f >> g", &env);
    let w = plan_wiring(&p);
    assert!(matches!(&w[0].stdout, OutputSink::ToFile(f, true) if f == "g"));
}

#[test]
fn combined_redirection_wires_both_output_streams() {
    let mut shell = fresh_shell("/");
    let env = empty_env();
    let p = run_pipeline(&mut shell, "make &> build.log", &env);
    let w = plan_wiring(&p);
    assert!(matches!(&w[0].stdout, OutputSink::ToFile(f, false) if f == "build.log"));
    assert!(matches!(&w[0].stderr, OutputSink::ToFile(f, false) if f == "build.log"));
}

#[test]
fn missing_redirection_path_is_a_syntax_error_and_spawns_nothing() {
    let mut shell = fresh_shell("/home/user");
    let env = empty_env();
    let r = shell.execute_command("cmd >", &env);
    assert!(matches!(r, Action::SyntaxError(_)));
    assert_eq!(shell.current_dir, word("/home/user"));
    assert!(shell.running);
    assert!(shell.jobs.is_empty());
}

#[test]
fn unclosed_quote_is_a_syntax_error() {
    let mut shell = fresh_shell("/");
    let env = empty_env();
    let r = shell.execute_command("echo \"oops", &env);
    assert!(matches!(r, Action::SyntaxError(_)));
}

#[test]
fn empty_line_does_nothing() {
    let mut shell = fresh_shell("/");
    let env = empty_env();
    assert!(matches!(shell.execute_command("", &env), Action::Done));
    assert!(matches!(shell.execute_command("   \t ", &env), Action::Done));
    assert!(shell.running);
}

#[test]
fn assignment_updates_the_table_and_spawns_nothing() {
    let mut shell = fresh_shell("/");
    let env = empty_env();
    let r = shell.execute_command("X=5", &env);
    assert!(matches!(r, Action::Done));
    assert_eq!(shell.vars.get(&str_chars("X")), Some(word("5")));
}

#[test]
fn assignment_value_keeps_everything_after_first_equals() {
    let mut shell = fresh_shell("/");
    let env = empty_env();
    shell.execute_command("EQ=a=b", &env);
    assert_eq!(shell.vars.get(&str_chars("EQ")), Some(word("a=b")));
}

#[test]
fn quoted_assignment_value_may_hold_spaces() {
    let mut shell = fresh_shell("/");
    let env = empty_env();
    shell.execute_command("MSG=\"a b\"", &env);
    assert_eq!(shell.vars.get(&str_chars("MSG")), Some(word("a b")));
}

#[test]
fn token_starting_with_equals_is_not_an_assignment() {
    let mut shell = fresh_shell("/");
    let env = empty_env();
    let r = shell.execute_command("=x", &env);
    assert!(matches!(r, Action::Run(_)));
    assert_eq!(shell.vars.get(&str_chars("")), None);
}

#[test]
fn local_assignment_wins_over_environment_in_argv() {
    let mut shell = fresh_shell("/");
    let mut env = VarTable::new();
    env.set(word("X"), word("2"));
    shell.execute_command("X=1", &env);
    let p = run_pipeline(&mut shell, "echo $X", &env);
    assert_eq!(p.stages[0].args, vec![word("echo"), word("1")]);
}

#[test]
fn expansion_does_not_resplit_words() {
    let mut shell = fresh_shell("/");
    let env = empty_env();
    shell.execute_command("MSG=\"a b\"", &env);
    let p = run_pipeline(&mut shell, "echo $MSG", &env);
    assert_eq!(p.stages[0].args, vec![word("echo"), word("a b")]);
}

#[test]
fn exit_stops_the_session() {
    let mut shell = fresh_shell("/");
    let env = empty_env();
    let r = shell.execute_command("exit", &env);
    assert!(matches!(r, Action::Done));
    assert!(!shell.running);
}

#[test]
fn pwd_reports_the_current_directory() {
    let mut shell = fresh_shell("/home/user");
    let env = empty_env();
    match shell.execute_command("pwd", &env) {
        Action::Output(s) => assert_eq!(s, word("/home/user")),
        other => panic!("expected output, got {}", describe(&other)),
    }
}

#[test]
fn cd_hands_back_its_argument_for_resolution() {
    let mut shell = fresh_shell("/home/user");
    let env = empty_env();
    match shell.execute_command("cd /tmp", &env) {
        Action::Cd(Some(a)) => assert_eq!(a, word("/tmp")),
        other => panic!("expected cd, got {}", describe(&other)),
    }
    match shell.execute_command("cd", &env) {
        Action::Cd(None) => {},
        other => panic!("expected cd, got {}", describe(&other)),
    }
}

#[test]
fn cd_absolute_path_is_used_as_is() {
    let shell = fresh_shell("/home/user");
    let r = shell.cd_destination(&Some(word("/tmp")));
    assert_eq!(r.ok(), Some(word("/tmp")));
}

#[test]
fn cd_relative_path_joins_the_current_directory() {
    let shell = fresh_shell("/home/user");
    let r = shell.cd_destination(&Some(word("docs")));
    assert_eq!(r.ok(), Some(word("/home/user/docs")));
    let root = fresh_shell("/");
    assert_eq!(root.cd_destination(&Some(word("etc"))).ok(), Some(word("/etc")));
}

#[test]
fn cd_home_resolves_to_some_directory() {
    let shell = fresh_shell("/home/user");
    assert!(shell.cd_destination(&None).is_ok());
    assert!(shell.cd_destination(&Some(word("~"))).is_ok());
}

#[test]
fn cd_dash_restores_the_previous_directory() {
    let mut shell = fresh_shell("/home/user");
    let dest = shell.cd_destination(&Some(word("/tmp"))).unwrap();
    shell.apply_cd(dest);
    assert_eq!(shell.current_dir, word("/tmp"));
    assert_eq!(shell.previous_dir, Some(word("/home/user")));
    let back = shell.cd_destination(&Some(word("-"))).unwrap();
    assert_eq!(back, word("/home/user"));
    shell.apply_cd(back);
    assert_eq!(shell.current_dir, word("/home/user"));
    assert_eq!(shell.previous_dir, Some(word("/tmp")));
}

#[test]
fn cd_dash_without_previous_directory_is_an_error() {
    let shell = fresh_shell("/home/user");
    let r = shell.cd_destination(&Some(word("-")));
    assert!(matches!(r, Err(CdError::NoPreviousDir)));
    assert_eq!(shell.current_dir, word("/home/user"));
}

#[test]
fn trailing_ampersand_marks_the_pipeline_background() {
    let mut shell = fresh_shell("/");
    let env = empty_env();
    let p = run_pipeline(&mut shell, "sleep 1 &", &env);
    assert!(p.background);
    assert_eq!(p.stages[0].args, vec![word("sleep"), word("1")]);
}

#[test]
fn ampersand_without_space_is_not_a_background_marker() {
    let mut shell = fresh_shell("/");
    let env = empty_env();
    let p = run_pipeline(&mut shell, "sleep 1&", &env);
    assert!(!p.background);
    assert_eq!(p.stages[0].args, vec![word("sleep"), word("1&")]);
}

#[test]
fn background_jobs_are_registered_and_reaped_when_exited() {
    let mut shell = fresh_shell("/");
    let id1 = shell.register_background_job(111, word("sleep 1 &")).unwrap();
    let id2 = shell.register_background_job(222, word("sleep 2 &")).unwrap();
    assert_eq!(id1, 1);
    assert_eq!(id2, 2);
    assert_eq!(shell.jobs.len(), 2);
    assert!(matches!(shell.jobs[0].state, JobState::Running));

    shell.check_background_processes(&vec![111]);
    assert_eq!(shell.jobs.len(), 1);
    assert_eq!(shell.jobs[0].pid, 222);
    assert_eq!(shell.jobs[0].id, 2);

    shell.check_background_processes(&vec![]);
    assert_eq!(shell.jobs.len(), 1);

    shell.check_background_processes(&vec![222]);
    assert!(shell.jobs.is_empty());
}

#[test]
fn job_ids_keep_increasing_after_reaping() {
    let mut shell = fresh_shell("/");
    shell.register_background_job(10, word("a &")).unwrap();
    shell.check_background_processes(&vec![10]);
    let id = shell.register_background_job(11, word("b &")).unwrap();
    assert_eq!(id, 2);
}

#[test]
fn empty_pipe_segments_are_dropped() {
    let mut shell = fresh_shell("/");
    let env = empty_env();
    let p = run_pipeline(&mut shell, "echo a | | wc", &env);
    assert_eq!(p.stages.len(), 2);
    assert_eq!(p.stages[0].args, vec![word("echo"), word("a")]);
    assert_eq!(p.stages[1].args, vec![word("wc")]);
}

#[test]
fn builtins_are_not_intercepted_inside_pipelines() {
    let mut shell = fresh_shell("/home/user");
    let env = empty_env();
    let p = run_pipeline(&mut shell, "pwd | wc -c", &env);
    assert_eq!(p.stages[0].args, vec![word("pwd")]);
    assert_eq!(shell.current_dir, word("/home/user"));
}

#[test]
fn variables_expand_inside_pipeline_stages() {
    let mut shell = fresh_shell("/");
    let env = empty_env();
    shell.execute_command("N=5", &env);
    let p = run_pipeline(&mut shell, "seq $N | wc -l", &env);
    assert_eq!(p.stages[0].args, vec![word("seq"), word("5")]);
}

#[test]
fn redirection_paths_are_not_expanded() {
    let mut shell = fresh_shell("/");
    let env = empty_env();
    shell.execute_command("F=out", &env);
    let p = run_pipeline(&mut shell, "echo a > $F", &env);
    let w = plan_wiring(&p);
    assert!(matches!(&w[0].stdout, OutputSink::ToFile(f, false) if f == "$F"));
}
