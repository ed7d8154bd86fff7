use cli::env::Env;
use cli::exec::Executor;
use cli::exec::Need;
use cli::exec::StageData;
use cli::exec::Step;
use cli::parser::Parser;

/// Parse one full line and finish the statement: assignment-only bindings go
/// into the environment, and the pipeline stages come back.
fn parse_line(env: &mut Env, line: &[u8]) -> Vec<cli::cmd::Command> {
    let stmt = {
        let parser = Parser::new(env);
        let (outcome, _) = parser.feed(line.to_vec());
        match outcome.expect("statement complete") {
            Ok(stmt) => stmt,
            Err(e) => panic!("{}", e.message()),
        }
    };
    stmt.into_pipeline(env)
}

fn no_data() -> StageData {
    StageData { stdin: None, files: Vec::new(), spawned: None }
}

#[test]
fn pipeline_feeds_first_stage_output_into_second() {
    let mut env = Env::new();
    let cmds = parse_line(&mut env, b"cat a | wc");
    let mut exec = Executor::new(cmds);

    // Stage 1: `cat a` asks for the file and not for the process input.
    match exec.current_need(&env) {
        Need::Files { paths, wants_input } => {
            assert_eq!(paths, vec![b"a".to_vec()]);
            assert!(!wants_input);
        }
        _ => panic!("cat asks for files"),
    }
    let step = exec.step(
        StageData {
            stdin: None,
            files: vec![Ok(b"hello world\n".to_vec())],
            spawned: None,
        },
        &mut env,
    );
    assert!(matches!(step, Step::Continue));

    // Stage 2: `wc` reads the stage input (`-`), which is stage 1's complete
    // output: 1 line, 2 words, 12 bytes.
    match exec.current_need(&env) {
        Need::Files { paths, wants_input } => {
            assert_eq!(paths, vec![b"-".to_vec()]);
            assert!(!wants_input, "only the first stage reads the process input");
        }
        _ => panic!("wc asks for files"),
    }
    let step = exec.step(
        StageData { stdin: None, files: vec![Ok(Vec::new())], spawned: None },
        &mut env,
    );
    match step {
        Step::Done(out) => {
            assert_eq!(out, b"      1       2      12 -\n".to_vec());
        }
        _ => panic!("last stage finishes the pipeline"),
    }
    assert!(exec.finished());
}

#[test]
fn assignment_stage_piped_into_command_sets_variable_and_runs_it() {
    let mut env = Env::new();
    let cmds = parse_line(&mut env, b"x=1 | echo");
    assert_eq!(cmds.len(), 2);
    let mut exec = Executor::new(cmds);

    assert!(matches!(exec.current_need(&env), Need::Nothing));
    let step = exec.step(no_data(), &mut env);
    assert!(matches!(step, Step::Continue));
    assert_eq!(env.get(b"x".to_vec()), b"1".to_vec());

    // The echo stage still executes, its input being the (empty) output of
    // the assignment stage.
    let step = exec.step(no_data(), &mut env);
    match step {
        Step::Done(out) => assert_eq!(out, b"\n".to_vec()),
        _ => panic!("echo finishes the pipeline"),
    }
}

#[test]
fn assignment_only_statement_sets_variable_without_command_stages() {
    let mut env = Env::new();
    let cmds = parse_line(&mut env, b"a='hello world'");
    // Zero pipeline stages: the binding was applied when the statement
    // completed, and the executor has nothing to run.
    assert_eq!(cmds.len(), 0);
    assert_eq!(env.get(b"a".to_vec()), b"hello world".to_vec());
    let exec = Executor::new(cmds);
    assert!(exec.finished());
}

#[test]
fn substituted_argument_reaches_echo() {
    let mut env = Env::new();
    env.set(b"x".to_vec(), b"hi".to_vec());
    let cmds = parse_line(&mut env, b"echo $x");
    let mut exec = Executor::new(cmds);
    let step = exec.step(no_data(), &mut env);
    match step {
        Step::Done(out) => assert_eq!(out, b"hi\n".to_vec()),
        _ => panic!("echo finishes"),
    }
}

#[test]
fn substitution_concatenates_inside_echo_argument() {
    let mut env = Env::new();
    env.set(b"x".to_vec(), b"hi".to_vec());
    let cmds = parse_line(&mut env, b"echo a$x.b");
    let mut exec = Executor::new(cmds);
    let step = exec.step(no_data(), &mut env);
    match step {
        Step::Done(out) => assert_eq!(out, b"ahi.b\n".to_vec()),
        _ => panic!("echo finishes"),
    }
}

#[test]
fn failing_file_read_stops_the_pipeline() {
    let mut env = Env::new();
    let cmds = parse_line(&mut env, b"cat missing | wc");
    let mut exec = Executor::new(cmds);
    let step = exec.step(
        StageData {
            stdin: None,
            files: vec![Err(b"no such file".to_vec())],
            spawned: None,
        },
        &mut env,
    );
    match step {
        Step::Failed { output, message } => {
            // The failing stage is not the last one: its partial output never
            // reaches the process output.
            assert_eq!(output, Vec::<u8>::new());
            assert_eq!(message, b"no such file".to_vec());
        }
        _ => panic!("the failing stage reports its error"),
    }
    assert!(exec.finished(), "remaining stages are not run");
}

#[test]
fn failing_last_stage_keeps_the_bytes_written_before_the_failure() {
    let mut env = Env::new();
    let cmds = parse_line(&mut env, b"cat good missing");
    let mut exec = Executor::new(cmds);
    let step = exec.step(
        StageData {
            stdin: None,
            files: vec![Ok(b"good".to_vec()), Err(b"missing: gone".to_vec())],
            spawned: None,
        },
        &mut env,
    );
    match step {
        Step::Failed { output, message } => {
            assert_eq!(output, b"good".to_vec());
            assert_eq!(message, b"missing: gone".to_vec());
        }
        _ => panic!("the failing stage reports its error"),
    }
}

#[test]
fn exit_stage_asks_to_quit() {
    let mut env = Env::new();
    let cmds = parse_line(&mut env, b"exit");
    let mut exec = Executor::new(cmds);
    let step = exec.step(no_data(), &mut env);
    match step {
        Step::Quit(out) => assert_eq!(out, b"\n".to_vec()),
        _ => panic!("exit asks to quit"),
    }
}

#[test]
fn spawn_stage_hands_captured_output_on() {
    let mut env = Env::new();
    env.set(b"inherited".to_vec(), b"v".to_vec());
    let cmds = parse_line(&mut env, b"k=1 sort x");
    let mut exec = Executor::new(cmds);
    match exec.current_need(&env) {
        Need::Spawn { path, args, vars } => {
            assert_eq!(path, b"sort".to_vec());
            assert_eq!(args, vec![b"x".to_vec()]);
            // The inherited binding comes first, the stage's own after it.
            assert_eq!(
                vars,
                vec![
                    (b"inherited".to_vec(), b"v".to_vec()),
                    (b"k".to_vec(), b"1".to_vec()),
                ]
            );
        }
        _ => panic!("an unrecognized name spawns"),
    }
    let step = exec.step(
        StageData { stdin: None, files: Vec::new(), spawned: Some(Ok(b"out\n".to_vec())) },
        &mut env,
    );
    match step {
        Step::Done(out) => assert_eq!(out, b"out\n".to_vec()),
        _ => panic!("spawn output is the pipeline output"),
    }
    // The stage-local binding never reaches the shared environment.
    assert_eq!(env.get(b"k".to_vec()), Vec::<u8>::new());
}

#[test]
fn pwd_writes_the_current_directory() {
    let mut env = Env::new();
    env.set_dir(b"/tmp/somewhere".to_vec());
    let cmds = parse_line(&mut env, b"pwd");
    let mut exec = Executor::new(cmds);
    let step = exec.step(no_data(), &mut env);
    match step {
        Step::Done(out) => assert_eq!(out, b"/tmp/somewhere\n".to_vec()),
        _ => panic!("pwd finishes"),
    }
}

#[test]
fn first_stage_cat_dash_reads_process_input() {
    let mut env = Env::new();
    let cmds = parse_line(&mut env, b"cat - x");
    let mut exec = Executor::new(cmds);
    match exec.current_need(&env) {
        Need::Files { paths, wants_input } => {
            assert_eq!(paths, vec![b"-".to_vec(), b"x".to_vec()]);
            assert!(wants_input);
        }
        _ => panic!("cat asks for files"),
    }
    let step = exec.step(
        StageData {
            stdin: Some(b"in:".to_vec()),
            files: vec![Ok(Vec::new()), Ok(b"file".to_vec())],
            spawned: None,
        },
        &mut env,
    );
    match step {
        Step::Done(out) => assert_eq!(out, b"in:file".to_vec()),
        _ => panic!("cat finishes"),
    }
}
