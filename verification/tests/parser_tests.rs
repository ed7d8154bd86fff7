use cli::cmd::Command;
use cli::env::Env;
use cli::parser::Parser;

/// Parse one full line and finish the statement: assignment-only bindings go
/// into the environment, and the pipeline stages come back.
fn parse_line(env: &mut Env, line: &[u8]) -> Result<Vec<Command>, String> {
    let stmt = {
        let parser = Parser::new(env);
        let (outcome, rest) = parser.feed(line.to_vec());
        assert!(rest.is_none(), "one full line must complete the statement");
        match outcome.expect("statement complete") {
            Ok(stmt) => stmt,
            Err(e) => return Err(e.message().to_string()),
        }
    };
    Ok(stmt.into_pipeline(env))
}

#[test]
fn assignment_only_statement_yields_zero_stages_and_sets_the_variable() {
    let mut env = Env::new();
    let cmds = match parse_line(&mut env, b"a='hello world'") {
        Ok(cmds) => cmds,
        Err(e) => panic!("{}", e),
    };
    assert_eq!(cmds.len(), 0);
    assert_eq!(env.get(b"a".to_vec()), b"hello world".to_vec());
}

#[test]
fn leading_pipe_is_a_syntax_error() {
    let mut env = Env::new();
    let err = match parse_line(&mut env, b"| echo a") {
        Err(e) => e,
        Ok(_) => panic!("a leading pipe must be rejected"),
    };
    assert_eq!(err, "syntax error near unexpected token `|'");
}

#[test]
fn trailing_pipe_is_a_syntax_error() {
    let mut env = Env::new();
    let err = match parse_line(&mut env, b"echo a |") {
        Err(e) => e,
        Ok(_) => panic!("a trailing pipe must be rejected"),
    };
    assert_eq!(err, "syntax error near unexpected token `|'");
}

#[test]
fn double_pipe_is_a_syntax_error() {
    let mut env = Env::new();
    assert!(parse_line(&mut env, b"echo a | | wc").is_err());
}

#[test]
fn two_stage_pipeline_parses_to_two_commands() {
    let mut env = Env::new();
    let cmds = match parse_line(&mut env, b"cat a | wc") {
        Ok(cmds) => cmds,
        Err(e) => panic!("{}", e),
    };
    assert_eq!(cmds.len(), 2);
    assert!(matches!(cmds[0], Command::Cat(_)));
    assert!(matches!(cmds[1], Command::Wc(_)));
}

#[test]
fn builtin_names_resolve_and_others_spawn() {
    let mut env = Env::new();
    let cmds = match parse_line(&mut env, b"echo hi | pwd | exit | sort -r") {
        Ok(cmds) => cmds,
        Err(e) => panic!("{}", e),
    };
    assert_eq!(cmds.len(), 4);
    assert!(matches!(cmds[0], Command::Echo(_)));
    assert!(matches!(cmds[1], Command::Pwd(_)));
    assert!(matches!(cmds[2], Command::Exit(_)));
    assert!(matches!(cmds[3], Command::Proc(_)));
}

#[test]
fn statement_spans_chunks_inside_quotes() {
    let mut env = Env::new();
    let stmt = {
        let parser = Parser::new(&env);
        let (outcome, parser) = parser.feed(b"echo 'a".to_vec());
        assert!(outcome.is_none(), "the open quote asks for more input");
        let parser = parser.expect("parser continues");
        let (outcome, rest) = parser.feed(b" b'".to_vec());
        assert!(rest.is_none());
        match outcome.expect("complete") {
            Ok(stmt) => stmt,
            Err(e) => panic!("{}", e.message()),
        }
    };
    let cmds = stmt.into_pipeline(&mut env);
    assert_eq!(cmds.len(), 1);
    assert!(matches!(cmds[0], Command::Echo(_)));
}

#[test]
fn assignment_right_side_substitutes() {
    let mut env = Env::new();
    env.set(b"y".to_vec(), b"1".to_vec());
    let cmds = match parse_line(&mut env, b"x=$y") {
        Ok(cmds) => cmds,
        Err(e) => panic!("{}", e),
    };
    assert_eq!(cmds.len(), 0);
    assert_eq!(env.get(b"x".to_vec()), b"1".to_vec());
}

#[test]
fn empty_statement_is_an_empty_pipeline() {
    let mut env = Env::new();
    let cmds = match parse_line(&mut env, b"") {
        Ok(cmds) => cmds,
        Err(e) => panic!("{}", e),
    };
    assert_eq!(cmds.len(), 0);
}

#[test]
fn assignment_after_command_name_is_an_argument() {
    let mut env = Env::new();
    let cmds = match parse_line(&mut env, b"echo a=1") {
        Ok(cmds) => cmds,
        Err(e) => panic!("{}", e),
    };
    assert_eq!(cmds.len(), 1);
    // The word `a=1` stays a literal argument: no assignment stage appears.
    assert!(matches!(cmds[0], Command::Echo(_)));
}

#[test]
fn substitution_can_name_a_builtin() {
    let mut env = Env::new();
    env.set(b"a".to_vec(), b"ex".to_vec());
    env.set(b"b".to_vec(), b"it".to_vec());
    let cmds = match parse_line(&mut env, b"$a$b") {
        Ok(cmds) => cmds,
        Err(e) => panic!("{}", e),
    };
    assert_eq!(cmds.len(), 1);
    assert!(matches!(cmds[0], Command::Exit(_)));
}
